//! Rewards and punishments of peers, and the standing that they add up to.
use crate::field::Digest;
use vstd::prelude::*;

verus! {

/// The reason for improving a peer's standing.
#[derive(Clone, Copy, Debug, PartialEq, Eq, Hash)]
pub enum PositivePeerSanction {
    /// The peer sent the given number of valid blocks.
    ValidBlocks(usize),
    /// The peer sent a new block proposal.
    NewBlockProposal,
}

impl PositivePeerSanction {
    /// How much the reward improves the standing: ten per valid block,
    /// saturating at `i32::MAX`, or seven for a block proposal.
    pub fn severity(self) -> (r: i32)
        ensures
            r == positive_severity(self),
    {
        match self {
            PositivePeerSanction::ValidBlocks(number) => {
                if number > (i32::MAX as usize) {
                    i32::MAX
                } else if number > (i32::MAX as usize) / 10 {
                    i32::MAX
                } else {
                    (number * 10) as i32
                }
            },
            PositivePeerSanction::NewBlockProposal => 7,
        }
    }

    /// The description of the reward.
    pub fn to_display_string(&self) -> (r: String)
        ensures
            r@ == positive_description(*self)@,
    {
        let text: &'static str = match self {
            PositivePeerSanction::ValidBlocks(_) => "valid blocks",
            PositivePeerSanction::NewBlockProposal => "new block proposal",
        };
        text.to_owned()
    }
}

/// The reason for degrading a peer's standing. Block heights are plain
/// numbers.
#[derive(Clone, Copy, Debug, PartialEq, Eq, Hash)]
pub enum NegativePeerSanction {
    InvalidBlock((u64, Digest)),
    DifferentGenesis,
    ForkResolutionError((u64, u16, Digest)),
    SynchronizationTimeout,
    InvalidSyncChallenge,
    InvalidSyncChallengeResponse,
    TimedOutSyncChallengeResponse,
    UnexpectedSyncChallengeResponse,
    FishyPowEvolutionChallengeResponse,
    FishyDifficultiesChallengeResponse,
    FloodPeerListResponse,
    BlockRequestUnknownHeight,
    InvalidMessage,
    NonMinedTransactionHasCoinbase,
    TooShortBlockBatch,
    ReceivedBatchBlocksOutsideOfSync,
    BatchBlocksInvalidStartHeight,
    BatchBlocksUnknownRequest,
    BatchBlocksRequestEmpty,
    BatchBlocksRequestTooManyDigests,
    InvalidTransaction,
    UnconfirmableTransaction,
    TransactionWithNegativeFee,
    DoubleSpendingTransaction,
    CannotApplyTransactionToMutatorSet,
    InvalidBlockMmrAuthentication,
    InvalidTransferBlock,
    BlockProposalNotFound,
    InvalidBlockProposal,
    NonFavorableBlockProposal,
    UnwantedMessage,
    NoStandingFoundMaybeCrash,
}

/// How much a punishment degrades the standing.
pub open spec fn negative_severity(s: NegativePeerSanction) -> int {
    match s {
        NegativePeerSanction::InvalidBlock(_) => -10int,
        NegativePeerSanction::DifferentGenesis => i32::MIN as int,
        NegativePeerSanction::ForkResolutionError((_, count, _)) => -(count as int),
        NegativePeerSanction::SynchronizationTimeout => -5int,
        NegativePeerSanction::InvalidSyncChallenge => -50int,
        NegativePeerSanction::InvalidSyncChallengeResponse => -500int,
        NegativePeerSanction::TimedOutSyncChallengeResponse => -50int,
        NegativePeerSanction::UnexpectedSyncChallengeResponse => -1int,
        NegativePeerSanction::FishyPowEvolutionChallengeResponse => -51int,
        NegativePeerSanction::FishyDifficultiesChallengeResponse => -51int,
        NegativePeerSanction::FloodPeerListResponse => -2int,
        NegativePeerSanction::BlockRequestUnknownHeight => -1int,
        NegativePeerSanction::InvalidMessage => -2int,
        NegativePeerSanction::NonMinedTransactionHasCoinbase => -10int,
        NegativePeerSanction::TooShortBlockBatch => -2int,
        NegativePeerSanction::ReceivedBatchBlocksOutsideOfSync => -2int,
        NegativePeerSanction::BatchBlocksInvalidStartHeight => -2int,
        NegativePeerSanction::BatchBlocksUnknownRequest => -10int,
        NegativePeerSanction::BatchBlocksRequestEmpty => -10int,
        NegativePeerSanction::BatchBlocksRequestTooManyDigests => -50int,
        NegativePeerSanction::InvalidTransaction => -10int,
        NegativePeerSanction::UnconfirmableTransaction => -2int,
        NegativePeerSanction::TransactionWithNegativeFee => -22int,
        NegativePeerSanction::DoubleSpendingTransaction => -14int,
        NegativePeerSanction::CannotApplyTransactionToMutatorSet => -3int,
        NegativePeerSanction::InvalidBlockMmrAuthentication => -4int,
        NegativePeerSanction::InvalidTransferBlock => -50int,
        NegativePeerSanction::BlockProposalNotFound => -1int,
        NegativePeerSanction::InvalidBlockProposal => -10int,
        NegativePeerSanction::NonFavorableBlockProposal => -1int,
        NegativePeerSanction::UnwantedMessage => -1int,
        NegativePeerSanction::NoStandingFoundMaybeCrash => -10int,
    }
}

/// The description of a punishment.
pub open spec fn negative_description(s: NegativePeerSanction) -> &'static str {
    match s {
        NegativePeerSanction::InvalidBlock(_) => "invalid block",
        NegativePeerSanction::DifferentGenesis => "different genesis",
        NegativePeerSanction::ForkResolutionError(_) => "fork resolution error",
        NegativePeerSanction::SynchronizationTimeout => "synchronization timeout",
        NegativePeerSanction::InvalidSyncChallenge => "invalid sync challenge",
        NegativePeerSanction::InvalidSyncChallengeResponse => "invalid sync challenge response",
        NegativePeerSanction::TimedOutSyncChallengeResponse => "timed-out sync challenge response",
        NegativePeerSanction::UnexpectedSyncChallengeResponse => "unexpected sync challenge response",
        NegativePeerSanction::FishyPowEvolutionChallengeResponse => "fishy pow evolution",
        NegativePeerSanction::FishyDifficultiesChallengeResponse => "fishy difficulties",
        NegativePeerSanction::FloodPeerListResponse => "flood peer list response",
        NegativePeerSanction::BlockRequestUnknownHeight => "block request unknown height",
        NegativePeerSanction::InvalidMessage => "invalid message",
        NegativePeerSanction::NonMinedTransactionHasCoinbase => "non-mined transaction has coinbase",
        NegativePeerSanction::TooShortBlockBatch => "too short block batch",
        NegativePeerSanction::ReceivedBatchBlocksOutsideOfSync => "received block batch outside of sync",
        NegativePeerSanction::BatchBlocksInvalidStartHeight => "invalid start height of batch blocks",
        NegativePeerSanction::BatchBlocksUnknownRequest => "batch blocks unknown request",
        NegativePeerSanction::BatchBlocksRequestEmpty => "batch block request empty",
        NegativePeerSanction::BatchBlocksRequestTooManyDigests => "too many digests in batch block request",
        NegativePeerSanction::InvalidTransaction => "invalid transaction",
        NegativePeerSanction::UnconfirmableTransaction => "unconfirmable transaction",
        NegativePeerSanction::TransactionWithNegativeFee => "negative-fee transaction",
        NegativePeerSanction::DoubleSpendingTransaction => "double-spending transaction",
        NegativePeerSanction::CannotApplyTransactionToMutatorSet => "cannot apply tx to mutator set",
        NegativePeerSanction::InvalidBlockMmrAuthentication => "invalid block mmr authentication",
        NegativePeerSanction::InvalidTransferBlock => "invalid transfer block",
        NegativePeerSanction::BlockProposalNotFound => "Block proposal not found",
        NegativePeerSanction::InvalidBlockProposal => "Invalid block proposal",
        NegativePeerSanction::NonFavorableBlockProposal => "non-favorable block proposal",
        NegativePeerSanction::UnwantedMessage => "unwanted message",
        NegativePeerSanction::NoStandingFoundMaybeCrash => "No standing found in map. Did peer task crash?",
    }
}

impl NegativePeerSanction {
    /// How much the punishment degrades the standing; a fork-resolution error
    /// costs one point per block of the fork.
    pub fn severity(self) -> (r: i32)
        ensures
            r == negative_severity(self),
    {
        match self {
            NegativePeerSanction::InvalidBlock(_) => -10,
            NegativePeerSanction::DifferentGenesis => i32::MIN,
            NegativePeerSanction::ForkResolutionError((_, count, _)) => -(count as i32),
            NegativePeerSanction::SynchronizationTimeout => -5,
            NegativePeerSanction::InvalidSyncChallenge => -50,
            NegativePeerSanction::InvalidSyncChallengeResponse => -500,
            NegativePeerSanction::TimedOutSyncChallengeResponse => -50,
            NegativePeerSanction::UnexpectedSyncChallengeResponse => -1,
            NegativePeerSanction::FishyPowEvolutionChallengeResponse => -51,
            NegativePeerSanction::FishyDifficultiesChallengeResponse => -51,
            NegativePeerSanction::FloodPeerListResponse => -2,
            NegativePeerSanction::BlockRequestUnknownHeight => -1,
            NegativePeerSanction::InvalidMessage => -2,
            NegativePeerSanction::NonMinedTransactionHasCoinbase => -10,
            NegativePeerSanction::TooShortBlockBatch => -2,
            NegativePeerSanction::ReceivedBatchBlocksOutsideOfSync => -2,
            NegativePeerSanction::BatchBlocksInvalidStartHeight => -2,
            NegativePeerSanction::BatchBlocksUnknownRequest => -10,
            NegativePeerSanction::BatchBlocksRequestEmpty => -10,
            NegativePeerSanction::BatchBlocksRequestTooManyDigests => -50,
            NegativePeerSanction::InvalidTransaction => -10,
            NegativePeerSanction::UnconfirmableTransaction => -2,
            NegativePeerSanction::TransactionWithNegativeFee => -22,
            NegativePeerSanction::DoubleSpendingTransaction => -14,
            NegativePeerSanction::CannotApplyTransactionToMutatorSet => -3,
            NegativePeerSanction::InvalidBlockMmrAuthentication => -4,
            NegativePeerSanction::InvalidTransferBlock => -50,
            NegativePeerSanction::BlockProposalNotFound => -1,
            NegativePeerSanction::InvalidBlockProposal => -10,
            NegativePeerSanction::NonFavorableBlockProposal => -1,
            NegativePeerSanction::UnwantedMessage => -1,
            NegativePeerSanction::NoStandingFoundMaybeCrash => -10,
        }
    }

    /// The description of the punishment.
    pub fn description(&self) -> (r: &'static str)
        ensures
            r == negative_description(*self),
    {
        match self {
            NegativePeerSanction::InvalidBlock(_) => "invalid block",
            NegativePeerSanction::DifferentGenesis => "different genesis",
            NegativePeerSanction::ForkResolutionError(_) => "fork resolution error",
            NegativePeerSanction::SynchronizationTimeout => "synchronization timeout",
            NegativePeerSanction::InvalidSyncChallenge => "invalid sync challenge",
            NegativePeerSanction::InvalidSyncChallengeResponse => "invalid sync challenge response",
            NegativePeerSanction::TimedOutSyncChallengeResponse => "timed-out sync challenge response",
            NegativePeerSanction::UnexpectedSyncChallengeResponse => "unexpected sync challenge response",
            NegativePeerSanction::FishyPowEvolutionChallengeResponse => "fishy pow evolution",
            NegativePeerSanction::FishyDifficultiesChallengeResponse => "fishy difficulties",
            NegativePeerSanction::FloodPeerListResponse => "flood peer list response",
            NegativePeerSanction::BlockRequestUnknownHeight => "block request unknown height",
            NegativePeerSanction::InvalidMessage => "invalid message",
            NegativePeerSanction::NonMinedTransactionHasCoinbase => "non-mined transaction has coinbase",
            NegativePeerSanction::TooShortBlockBatch => "too short block batch",
            NegativePeerSanction::ReceivedBatchBlocksOutsideOfSync => "received block batch outside of sync",
            NegativePeerSanction::BatchBlocksInvalidStartHeight => "invalid start height of batch blocks",
            NegativePeerSanction::BatchBlocksUnknownRequest => "batch blocks unknown request",
            NegativePeerSanction::BatchBlocksRequestEmpty => "batch block request empty",
            NegativePeerSanction::BatchBlocksRequestTooManyDigests => "too many digests in batch block request",
            NegativePeerSanction::InvalidTransaction => "invalid transaction",
            NegativePeerSanction::UnconfirmableTransaction => "unconfirmable transaction",
            NegativePeerSanction::TransactionWithNegativeFee => "negative-fee transaction",
            NegativePeerSanction::DoubleSpendingTransaction => "double-spending transaction",
            NegativePeerSanction::CannotApplyTransactionToMutatorSet => "cannot apply tx to mutator set",
            NegativePeerSanction::InvalidBlockMmrAuthentication => "invalid block mmr authentication",
            NegativePeerSanction::InvalidTransferBlock => "invalid transfer block",
            NegativePeerSanction::BlockProposalNotFound => "Block proposal not found",
            NegativePeerSanction::InvalidBlockProposal => "Invalid block proposal",
            NegativePeerSanction::NonFavorableBlockProposal => "non-favorable block proposal",
            NegativePeerSanction::UnwantedMessage => "unwanted message",
            NegativePeerSanction::NoStandingFoundMaybeCrash => "No standing found in map. Did peer task crash?",
        }
    }

    /// The description of the punishment, as an owned string.
    pub fn to_display_string(&self) -> (r: String)
        ensures
            r@ == negative_description(*self)@,
    {
        self.description().to_owned()
    }
}

/// The reason for changing a peer's standing: a reward or a punishment.
#[derive(Clone, Copy, Debug, PartialEq, Eq, Hash)]
pub enum PeerSanction {
    Positive(PositivePeerSanction),
    Negative(NegativePeerSanction),
}

/// How much a reward improves the standing.
pub open spec fn positive_severity(s: PositivePeerSanction) -> int {
    match s {
        PositivePeerSanction::ValidBlocks(n) => if 10 * n <= i32::MAX {
            10 * n
        } else {
            i32::MAX as int
        },
        PositivePeerSanction::NewBlockProposal => 7,
    }
}

/// How much a sanction changes the standing.
pub open spec fn sanction_severity(s: PeerSanction) -> int {
    match s {
        PeerSanction::Positive(p) => positive_severity(p),
        PeerSanction::Negative(n) => negative_severity(n),
    }
}

/// The description of a reward.
pub open spec fn positive_description(s: PositivePeerSanction) -> &'static str {
    match s {
        PositivePeerSanction::ValidBlocks(_) => "valid blocks",
        PositivePeerSanction::NewBlockProposal => "new block proposal",
    }
}

impl PeerSanction {
    /// The description of the sanction.
    pub fn to_display_string(&self) -> (r: String)
        ensures
            r@ == match self {
                PeerSanction::Positive(p) => positive_description(*p)@,
                PeerSanction::Negative(n) => negative_description(*n)@,
            },
    {
        match self {
            PeerSanction::Positive(p) => p.to_display_string(),
            PeerSanction::Negative(n) => n.to_display_string(),
        }
    }

    /// How much the sanction changes the standing.
    pub fn severity(self) -> (r: i32)
        ensures
            r == sanction_severity(self),
    {
        match self {
            PeerSanction::Positive(p) => p.severity(),
            PeerSanction::Negative(n) => n.severity(),
        }
    }
}

/// `v` clamped to `[lo, hi]`.
pub open spec fn clamp(v: int, lo: int, hi: int) -> int {
    if v < lo {
        lo
    } else if v > hi {
        hi
    } else {
        v
    }
}

/// How well a peer has behaved so far. Times are what the caller's clock
/// gave, as plain numbers.
#[derive(Clone, Copy, Debug, PartialEq, Eq, Hash)]
pub struct PeerStanding {
    /// The standing; the higher, the better.
    pub standing: i32,
    pub latest_punishment: Option<(NegativePeerSanction, u64)>,
    pub latest_reward: Option<(PositivePeerSanction, u64)>,
    /// The bound of the standing in both directions.
    pub peer_tolerance: i32,
}

impl PeerStanding {
    /// The tolerance: the standing stays within `[-tolerance, tolerance]`,
    /// and a peer at `-tolerance` is banned.
    pub open spec fn tolerance(&self) -> int {
        self.peer_tolerance as int
    }

    pub open spec fn wf(&self) -> bool {
        0 < self.tolerance() <= u16::MAX && -self.tolerance() <= self.standing <= self.tolerance()
    }

    /// A fresh standing with the given tolerance, which must be positive.
    pub fn new(peer_tolerance: u16) -> (r: PeerStanding)
        requires
            peer_tolerance > 0,
        ensures
            r.wf(),
            r.tolerance() == peer_tolerance,
            r.standing == 0,
            r.latest_punishment is None,
            r.latest_reward is None,
    {
        PeerStanding {
            standing: 0,
            latest_punishment: None,
            latest_reward: None,
            peer_tolerance: peer_tolerance as i32,
        }
    }

    /// Applies a sanction at time `now`: the standing moves by the sanction's
    /// severity, clamped to the tolerance, and the sanction is recorded. Fails
    /// exactly when the peer is then in bad standing.
    pub fn sanction(&mut self, sanction: PeerSanction, now: u64) -> (r: Result<(), StandingExceedsBanThreshold>)
        requires
            old(self).wf(),
        ensures
            final(self).wf(),
            final(self).tolerance() == old(self).tolerance(),
            final(self).standing == clamp(
                old(self).standing + sanction_severity(sanction),
                -old(self).tolerance(),
                old(self).tolerance(),
            ),
            match sanction {
                PeerSanction::Negative(n) => final(self).latest_punishment == Some((n, now))
                    && final(self).latest_reward == old(self).latest_reward,
                PeerSanction::Positive(p) => final(self).latest_reward == Some((p, now))
                    && final(self).latest_punishment == old(self).latest_punishment,
            },
            r is Ok <==> !final(self).is_bad_spec(),
    {
        let sum: i64 = self.standing as i64 + sanction.severity() as i64;
        let t = self.peer_tolerance as i64;
        let clamped = if sum < -t {
            -t
        } else if sum > t {
            t
        } else {
            sum
        };
        self.standing = clamped as i32;
        match sanction {
            PeerSanction::Negative(n) => self.latest_punishment = Some((n, now)),
            PeerSanction::Positive(p) => self.latest_reward = Some((p, now)),
        }
        if self.is_good() {
            Ok(())
        } else {
            Err(StandingExceedsBanThreshold)
        }
    }

    /// Clears the record.
    pub fn clear_standing(&mut self)
        requires
            old(self).wf(),
        ensures
            final(self).wf(),
            final(self).tolerance() == old(self).tolerance(),
            final(self).standing == 0,
            final(self).latest_punishment is None,
            final(self).latest_reward is None,
    {
        self.standing = 0;
        self.latest_punishment = None;
        self.latest_reward = None;
    }

    pub open spec fn is_bad_spec(&self) -> bool {
        self.standing <= -self.tolerance()
    }

    /// Whether the standing is below zero.
    pub fn is_negative(&self) -> (r: bool)
        ensures
            r == (self.standing < 0),
    {
        self.standing < 0
    }

    /// Whether the peer is to be banned: its standing is at the lower bound.
    pub fn is_bad(&self) -> (r: bool)
        requires
            self.wf(),
        ensures
            r == self.is_bad_spec(),
    {
        self.standing <= -self.peer_tolerance
    }

    /// Whether the peer is not to be banned.
    pub fn is_good(&self) -> (r: bool)
        requires
            self.wf(),
        ensures
            r == !self.is_bad_spec(),
    {
        !self.is_bad()
    }
}

/// A peer's standing has gone past the threshold at which it is banned.
#[derive(Clone, Copy, Debug, Default)]
pub struct StandingExceedsBanThreshold;

} // verus!
