//! The block input and the decoded action records of the registry contract.

use vstd::prelude::*;

verus! {

/// A block as delivered by the block-streaming host.
pub struct Block {
    pub number: u64,
    pub id: String,
    /// Seconds since the epoch; absent when the header carries none.
    pub timestamp: Option<u64>,
    pub transactions: Vec<Transaction>,
}

/// A transaction trace of a block.
pub struct Transaction {
    /// The bytes of the transaction's identifier.
    pub id: Vec<u8>,
    /// Whether the transaction has an execution receipt.
    pub executed: bool,
    pub action_traces: Vec<ActionTrace>,
}

/// One executed action.
pub struct ActionTrace {
    pub receiver: String,
    /// Position of the action among the actions of its transaction.
    pub ordinal: u32,
    pub action: Option<Action>,
}

/// The invoked action, with its payload.
pub struct Action {
    pub name: String,
    pub json: JsonPayload,
    /// The contract's native binary encoding of the arguments.
    pub raw_data: Vec<u8>,
}

/// What the JSON representation of an action's arguments gave.
pub enum JsonPayload {
    /// No JSON representation: the arguments are decoded from the raw bytes.
    Absent,
    /// A JSON representation that is not a JSON document.
    Malformed,
    /// A parsed JSON document, to be mapped onto the action's layout.
    Document(crate::json::JsonValue),
}

/// The nine actions of the registry contract.
#[derive(PartialEq, Eq, Structural, Clone, Copy, Debug)]
pub enum ActionKind {
    Put,
    Attest,
    Vote,
    Finalize,
    Stake,
    Unstake,
    Like,
    Unlike,
    UpdateRespect,
}

pub struct Put {
    pub author: String,
    pub kind: u8,
    /// Hex text of the anchored content hash.
    pub hash: String,
    pub parent: Option<String>,
    pub ts: u32,
    pub tags: Vec<String>,
}

pub struct Attest {
    pub attestor: String,
    pub tx_hash: String,
    pub confirmed_type: u8,
}

pub struct Vote {
    pub voter: String,
    pub tx_hash: String,
    pub val: i8,
}

pub struct Finalize {
    pub tx_hash: String,
}

/// The arguments of `stake` and of `unstake`.
pub struct Stake {
    pub account: String,
    pub node_id: String,
    /// An asset in its text form, such as `1.0000 MUS`.
    pub quantity: String,
}

pub struct Like {
    pub account: String,
    pub node_id: String,
    pub node_path: Vec<String>,
}

pub struct Unlike {
    pub account: String,
    pub node_id: String,
}

pub struct RespectPair {
    pub account: String,
    pub respect: u32,
}

pub struct UpdateRespect {
    pub respect_data: Vec<RespectPair>,
    pub election_round: u64,
}

/// A decoded action, one variant for each action of the contract.
pub enum ActionRecord {
    Put(Put),
    Attest(Attest),
    Vote(Vote),
    Finalize(Finalize),
    Stake(Stake),
    Unstake(Stake),
    Like(Like),
    Unlike(Unlike),
    UpdateRespect(UpdateRespect),
}

pub ghost struct PutV {
    pub author: Seq<char>,
    pub kind: u8,
    pub hash: Seq<char>,
    pub parent: Option<Seq<char>>,
    pub ts: u32,
    pub tags: Seq<Seq<char>>,
}

pub ghost struct AttestV {
    pub attestor: Seq<char>,
    pub tx_hash: Seq<char>,
    pub confirmed_type: u8,
}

pub ghost struct VoteV {
    pub voter: Seq<char>,
    pub tx_hash: Seq<char>,
    pub val: i8,
}

pub ghost struct StakeV {
    pub account: Seq<char>,
    pub node_id: Seq<char>,
    pub quantity: Seq<char>,
}

pub ghost struct LikeV {
    pub account: Seq<char>,
    pub node_id: Seq<char>,
    pub node_path: Seq<Seq<char>>,
}

/// The mathematical content of an [`ActionRecord`].
pub ghost enum RecordV {
    Put(PutV),
    Attest(AttestV),
    Vote(VoteV),
    Finalize(Seq<char>),
    Stake(StakeV),
    Unstake(StakeV),
    Like(LikeV),
    Unlike(Seq<char>, Seq<char>),
    UpdateRespect(Seq<(Seq<char>, u32)>, u64),
}

pub open spec fn texts(v: Seq<String>) -> Seq<Seq<char>> {
    v.map_values(|s: String| s@)
}

pub open spec fn opt_text(o: Option<String>) -> Option<Seq<char>> {
    match o {
        Some(s) => Some(s@),
        None => None,
    }
}

pub open spec fn pairs_view(v: Seq<RespectPair>) -> Seq<(Seq<char>, u32)> {
    v.map_values(|p: RespectPair| (p.account@, p.respect))
}

impl View for Stake {
    type V = StakeV;

    open spec fn view(&self) -> StakeV {
        StakeV { account: self.account@, node_id: self.node_id@, quantity: self.quantity@ }
    }
}

impl View for ActionRecord {
    type V = RecordV;

    open spec fn view(&self) -> RecordV {
        match self {
            ActionRecord::Put(p) => RecordV::Put(
                PutV {
                    author: p.author@,
                    kind: p.kind,
                    hash: p.hash@,
                    parent: opt_text(p.parent),
                    ts: p.ts,
                    tags: texts(p.tags@),
                },
            ),
            ActionRecord::Attest(a) => RecordV::Attest(
                AttestV { attestor: a.attestor@, tx_hash: a.tx_hash@, confirmed_type: a.confirmed_type },
            ),
            ActionRecord::Vote(v) => RecordV::Vote(
                VoteV { voter: v.voter@, tx_hash: v.tx_hash@, val: v.val },
            ),
            ActionRecord::Finalize(f) => RecordV::Finalize(f.tx_hash@),
            ActionRecord::Stake(s) => RecordV::Stake(s@),
            ActionRecord::Unstake(s) => RecordV::Unstake(s@),
            ActionRecord::Like(l) => RecordV::Like(
                LikeV { account: l.account@, node_id: l.node_id@, node_path: texts(l.node_path@) },
            ),
            ActionRecord::Unlike(u) => RecordV::Unlike(u.account@, u.node_id@),
            ActionRecord::UpdateRespect(u) => RecordV::UpdateRespect(
                pairs_view(u.respect_data@),
                u.election_round,
            ),
        }
    }
}

impl RecordV {
    /// The action that a record is the arguments of.
    pub open spec fn kind(self) -> ActionKind {
        match self {
            RecordV::Put(_) => ActionKind::Put,
            RecordV::Attest(_) => ActionKind::Attest,
            RecordV::Vote(_) => ActionKind::Vote,
            RecordV::Finalize(_) => ActionKind::Finalize,
            RecordV::Stake(_) => ActionKind::Stake,
            RecordV::Unstake(_) => ActionKind::Unstake,
            RecordV::Like(_) => ActionKind::Like,
            RecordV::Unlike(..) => ActionKind::Unlike,
            RecordV::UpdateRespect(..) => ActionKind::UpdateRespect,
        }
    }
}

/// The action that an on-chain action name invokes, if it is one of the nine.
pub open spec fn kind_of_name(name: Seq<char>) -> Option<ActionKind> {
    if name == "put"@ {
        Some(ActionKind::Put)
    } else if name == "attest"@ {
        Some(ActionKind::Attest)
    } else if name == "vote"@ {
        Some(ActionKind::Vote)
    } else if name == "finalize"@ {
        Some(ActionKind::Finalize)
    } else if name == "stake"@ {
        Some(ActionKind::Stake)
    } else if name == "unstake"@ {
        Some(ActionKind::Unstake)
    } else if name == "like"@ {
        Some(ActionKind::Like)
    } else if name == "unlike"@ {
        Some(ActionKind::Unlike)
    } else if name == "updaterespect"@ {
        Some(ActionKind::UpdateRespect)
    } else {
        None
    }
}

/// Classifies an action by its name.
pub fn action_kind(name: &str) -> (r: Option<ActionKind>)
    ensures
        r == kind_of_name(name@),
{
    if crate::text::same_text(name, "put") {
        Some(ActionKind::Put)
    } else if crate::text::same_text(name, "attest") {
        Some(ActionKind::Attest)
    } else if crate::text::same_text(name, "vote") {
        Some(ActionKind::Vote)
    } else if crate::text::same_text(name, "finalize") {
        Some(ActionKind::Finalize)
    } else if crate::text::same_text(name, "stake") {
        Some(ActionKind::Stake)
    } else if crate::text::same_text(name, "unstake") {
        Some(ActionKind::Unstake)
    } else if crate::text::same_text(name, "like") {
        Some(ActionKind::Like)
    } else if crate::text::same_text(name, "unlike") {
        Some(ActionKind::Unlike)
    } else if crate::text::same_text(name, "updaterespect") {
        Some(ActionKind::UpdateRespect)
    } else {
        None
    }
}

} // verus!
