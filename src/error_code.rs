//! The error codes that responses carry, as Apache Kafka numbers them.
use vstd::prelude::*;

verus! {

/// An error code written into a response.
#[derive(Debug, Clone, Copy, PartialEq, Eq, Structural)]
pub enum ErrorCode {
    UnknownServerError,
    NoError,
    OffsetOutOfRange,
    CorruptMessage,
    UnknownTopicOrPartition,
    InvalidFetchSize,
    LeaderNotAvailable,
    NotLeaderForPartition,
    RequestTimedOut,
    BrokerNotAvailable,
    ReplicaNotAvailable,
    MessageSizeTooLarge,
    StaleControllerEpoch,
    OffsetMetadataTooLarge,
    NetworkException,
    CoordinatorLoadInProgress,
    CoordinatorNotAvailable,
    NotCoordinator,
    InvalidTopicException,
    RecordListTooLarge,
    NotEnoughReplicas,
    NotEnoughReplicasAfterAppend,
    InvalidRequiredAcks,
    IllegalGeneration,
    InconsistentGroupProtocol,
    InvalidGroupId,
    UnknownMemberId,
    InvalidSessionTimeout,
    RebalanceInProgress,
    InvalidCommitOffsetSize,
    TopicAuthorizationFailed,
    GroupAuthorizationFailed,
    ClusterAuthorizationFailed,
    UnsupportedVersion,
    UnknownTopicId,
}

impl View for ErrorCode {
    type V = ErrorCode;

    open spec fn view(&self) -> ErrorCode {
        *self
    }
}

/// The number that stands for `e` on the wire.
pub open spec fn error_code_value(e: ErrorCode) -> i16 {
    match e {
        ErrorCode::UnknownServerError => -1i16,
        ErrorCode::NoError => 0i16,
        ErrorCode::OffsetOutOfRange => 1i16,
        ErrorCode::CorruptMessage => 2i16,
        ErrorCode::UnknownTopicOrPartition => 3i16,
        ErrorCode::InvalidFetchSize => 4i16,
        ErrorCode::LeaderNotAvailable => 5i16,
        ErrorCode::NotLeaderForPartition => 6i16,
        ErrorCode::RequestTimedOut => 7i16,
        ErrorCode::BrokerNotAvailable => 8i16,
        ErrorCode::ReplicaNotAvailable => 9i16,
        ErrorCode::MessageSizeTooLarge => 10i16,
        ErrorCode::StaleControllerEpoch => 11i16,
        ErrorCode::OffsetMetadataTooLarge => 12i16,
        ErrorCode::NetworkException => 13i16,
        ErrorCode::CoordinatorLoadInProgress => 14i16,
        ErrorCode::CoordinatorNotAvailable => 15i16,
        ErrorCode::NotCoordinator => 16i16,
        ErrorCode::InvalidTopicException => 17i16,
        ErrorCode::RecordListTooLarge => 18i16,
        ErrorCode::NotEnoughReplicas => 19i16,
        ErrorCode::NotEnoughReplicasAfterAppend => 20i16,
        ErrorCode::InvalidRequiredAcks => 21i16,
        ErrorCode::IllegalGeneration => 22i16,
        ErrorCode::InconsistentGroupProtocol => 23i16,
        ErrorCode::InvalidGroupId => 24i16,
        ErrorCode::UnknownMemberId => 25i16,
        ErrorCode::InvalidSessionTimeout => 26i16,
        ErrorCode::RebalanceInProgress => 27i16,
        ErrorCode::InvalidCommitOffsetSize => 28i16,
        ErrorCode::TopicAuthorizationFailed => 29i16,
        ErrorCode::GroupAuthorizationFailed => 30i16,
        ErrorCode::ClusterAuthorizationFailed => 31i16,
        ErrorCode::UnsupportedVersion => 35i16,
        ErrorCode::UnknownTopicId => 100i16,
    }
}

impl ErrorCode {
    /// The number that stands for this code on the wire.
    pub fn code(&self) -> (r: i16)
        ensures
            r == error_code_value(*self),
    {
        match self {
            ErrorCode::UnknownServerError => -1,
            ErrorCode::NoError => 0,
            ErrorCode::OffsetOutOfRange => 1,
            ErrorCode::CorruptMessage => 2,
            ErrorCode::UnknownTopicOrPartition => 3,
            ErrorCode::InvalidFetchSize => 4,
            ErrorCode::LeaderNotAvailable => 5,
            ErrorCode::NotLeaderForPartition => 6,
            ErrorCode::RequestTimedOut => 7,
            ErrorCode::BrokerNotAvailable => 8,
            ErrorCode::ReplicaNotAvailable => 9,
            ErrorCode::MessageSizeTooLarge => 10,
            ErrorCode::StaleControllerEpoch => 11,
            ErrorCode::OffsetMetadataTooLarge => 12,
            ErrorCode::NetworkException => 13,
            ErrorCode::CoordinatorLoadInProgress => 14,
            ErrorCode::CoordinatorNotAvailable => 15,
            ErrorCode::NotCoordinator => 16,
            ErrorCode::InvalidTopicException => 17,
            ErrorCode::RecordListTooLarge => 18,
            ErrorCode::NotEnoughReplicas => 19,
            ErrorCode::NotEnoughReplicasAfterAppend => 20,
            ErrorCode::InvalidRequiredAcks => 21,
            ErrorCode::IllegalGeneration => 22,
            ErrorCode::InconsistentGroupProtocol => 23,
            ErrorCode::InvalidGroupId => 24,
            ErrorCode::UnknownMemberId => 25,
            ErrorCode::InvalidSessionTimeout => 26,
            ErrorCode::RebalanceInProgress => 27,
            ErrorCode::InvalidCommitOffsetSize => 28,
            ErrorCode::TopicAuthorizationFailed => 29,
            ErrorCode::GroupAuthorizationFailed => 30,
            ErrorCode::ClusterAuthorizationFailed => 31,
            ErrorCode::UnsupportedVersion => 35,
            ErrorCode::UnknownTopicId => 100,
        }
    }
}

} // verus!
