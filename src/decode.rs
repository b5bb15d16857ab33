//! Decoding the binary arguments of each registry action into a record.
//!
//! Layouts, field by field:
//! - `put`: author name, type `u8`, hash checksum256, parent optional checksum256,
//!   ts `u32`, tags vector of strings;
//! - `attest`: attestor name, tx_hash checksum256, confirmed_type `u8`;
//! - `vote`: voter name, tx_hash checksum256, val `i8`;
//! - `finalize`: tx_hash checksum256;
//! - `stake`, `unstake`: account name, node_id checksum256, quantity asset;
//! - `like`: account name, node_id checksum256, node_path vector of checksum256;
//! - `unlike`: account name, node_id checksum256;
//! - `updaterespect`: respect_data vector of (name, `u32`) pairs, election_round `u64`.
//!
//! A payload decodes only if the layout uses all of its bytes.

use vstd::prelude::*;
use crate::binary::{
    asset_at, checksum_at, length_at, name_at, read_asset, read_checksum, read_length,
    read_name, read_string, read_uint, string_at, text_read_as, uint_at,
};
use crate::chain::{
    pairs_view, texts, ActionKind, ActionRecord, Attest, AttestV, Finalize, Like, LikeV, Put,
    PutV, RecordV, RespectPair, Stake, StakeV, Unlike, UpdateRespect, Vote, VoteV,
};

verus! {

/// A string (`checksum == false`) or a checksum (`checksum == true`) at `p`.
pub open spec fn field_at(checksum: bool, b: Seq<u8>, p: int) -> Option<(Seq<char>, int)> {
    if checksum {
        checksum_at(b, p)
    } else {
        string_at(b, p)
    }
}

pub open spec fn prepend<T>(acc: Seq<T>, r: Option<(Seq<T>, int)>) -> Option<(Seq<T>, int)> {
    match r {
        Some((ts, e)) => Some((acc + ts, e)),
        None => None,
    }
}

/// `n` fields in a row, from `p`.
pub open spec fn fields_at(checksum: bool, b: Seq<u8>, p: int, n: nat) -> Option<(Seq<Seq<char>>, int)>
    decreases n,
{
    if n == 0 {
        Some((Seq::empty(), p))
    } else {
        match field_at(checksum, b, p) {
            Some((t, q)) => prepend(seq![t], fields_at(checksum, b, q, (n - 1) as nat)),
            None => None,
        }
    }
}

/// A vector of fields: a length prefix, then that many fields.
pub open spec fn list_at(checksum: bool, b: Seq<u8>, p: int) -> Option<(Seq<Seq<char>>, int)> {
    match length_at(b, p) {
        Some((n, q)) => fields_at(checksum, b, q, n),
        None => None,
    }
}

/// An optional checksum: a flag byte 0 (absent) or 1 (then the checksum).
pub open spec fn opt_checksum_at(b: Seq<u8>, p: int) -> Option<(Option<Seq<char>>, int)> {
    match uint_at(b, p, 1) {
        Some((flag, q)) => if flag == 0 {
            Some((None, q))
        } else if flag == 1 {
            match checksum_at(b, q) {
                Some((t, e)) => Some((Some(t), e)),
                None => None,
            }
        } else {
            None
        },
        None => None,
    }
}

/// An account name and its `u32` respect value.
pub open spec fn pair_at(b: Seq<u8>, p: int) -> Option<((Seq<char>, u32), int)> {
    match name_at(b, p) {
        Some((a, q)) => match uint_at(b, q, 4) {
            Some((v, e)) => Some(((a, v as u32), e)),
            None => None,
        },
        None => None,
    }
}

/// `n` pairs in a row, from `p`.
pub open spec fn pairs_at(b: Seq<u8>, p: int, n: nat) -> Option<(Seq<(Seq<char>, u32)>, int)>
    decreases n,
{
    if n == 0 {
        Some((Seq::empty(), p))
    } else {
        match pair_at(b, p) {
            Some((t, q)) => prepend(seq![t], pairs_at(b, q, (n - 1) as nat)),
            None => None,
        }
    }
}

pub open spec fn pair_list_at(b: Seq<u8>, p: int) -> Option<(Seq<(Seq<char>, u32)>, int)> {
    match length_at(b, p) {
        Some((n, q)) => pairs_at(b, q, n),
        None => None,
    }
}

fn read_field(checksum: bool, b: &[u8], p: usize) -> (r: Option<(String, usize)>)
    ensures
        text_read_as(r, field_at(checksum, b@, p as int)),
{
    if checksum {
        read_checksum(b, p)
    } else {
        read_string(b, p)
    }
}

proof fn lemma_fields_step(checksum: bool, b: Seq<u8>, p: int, n: nat, acc: Seq<Seq<char>>)
    requires
        n > 0,
    ensures
        prepend(acc, fields_at(checksum, b, p, n)) == match field_at(checksum, b, p) {
            Some((t, q)) => prepend(acc.push(t), fields_at(checksum, b, q, (n - 1) as nat)),
            None => None,
        },
{
    match field_at(checksum, b, p) {
        Some((t, q)) => {
            match fields_at(checksum, b, q, (n - 1) as nat) {
                Some((ts, e)) => {
                    assert(acc + (seq![t] + ts) =~= acc.push(t) + ts);
                },
                None => {},
            }
        },
        None => {},
    }
}

/// Reads a vector of strings or of checksums.
fn read_list(checksum: bool, b: &[u8], p: usize) -> (r: Option<(Vec<String>, usize)>)
    ensures
        match r {
            Some((v, q)) => list_at(checksum, b@, p as int) == Some((texts(v@), q as int)),
            None => list_at(checksum, b@, p as int) is None,
        },
{
    let (n, mut q) = match read_length(b, p) {
        Some(x) => x,
        None => return None,
    };
    let mut out: Vec<String> = Vec::new();
    let mut i: usize = 0;
    assert(prepend(texts(out@), fields_at(checksum, b@, q as int, n as nat)) == fields_at(
        checksum,
        b@,
        q as int,
        n as nat,
    )) by {
        match fields_at(checksum, b@, q as int, n as nat) {
            Some((ts, e)) => {
                assert(texts(out@) + ts =~= ts);
            },
            None => {},
        }
    }
    let ghost whole = fields_at(checksum, b@, q as int, n as nat);
    while i < n
        invariant
            i <= n,
            whole == prepend(texts(out@), fields_at(checksum, b@, q as int, (n - i) as nat)),
            whole == list_at(checksum, b@, p as int),
        decreases n - i,
    {
        proof {
            lemma_fields_step(checksum, b@, q as int, (n - i) as nat, texts(out@));
        }
        match read_field(checksum, b, q) {
            Some((t, e)) => {
                let ghost before = out@;
                out.push(t);
                assert(texts(out@) =~= texts(before).push(t@));
                q = e;
            },
            None => return None,
        }
        i = i + 1;
    }
    proof {
        assert(texts(out@) + Seq::<Seq<char>>::empty() =~= texts(out@));
    }
    Some((out, q))
}

proof fn lemma_pairs_step(b: Seq<u8>, p: int, n: nat, acc: Seq<(Seq<char>, u32)>)
    requires
        n > 0,
    ensures
        prepend(acc, pairs_at(b, p, n)) == match pair_at(b, p) {
            Some((t, q)) => prepend(acc.push(t), pairs_at(b, q, (n - 1) as nat)),
            None => None,
        },
{
    match pair_at(b, p) {
        Some((t, q)) => {
            match pairs_at(b, q, (n - 1) as nat) {
                Some((ts, e)) => {
                    assert(acc + (seq![t] + ts) =~= acc.push(t) + ts);
                },
                None => {},
            }
        },
        None => {},
    }
}

/// Reads a vector of (account name, `u32`) pairs.
fn read_pairs(b: &[u8], p: usize) -> (r: Option<(Vec<RespectPair>, usize)>)
    ensures
        match r {
            Some((v, q)) => pair_list_at(b@, p as int) == Some((pairs_view(v@), q as int)),
            None => pair_list_at(b@, p as int) is None,
        },
{
    let (n, mut q) = match read_length(b, p) {
        Some(x) => x,
        None => return None,
    };
    let mut out: Vec<RespectPair> = Vec::new();
    let mut i: usize = 0;
    assert(prepend(pairs_view(out@), pairs_at(b@, q as int, n as nat)) == pairs_at(b@, q as int, n as nat)) by {
        match pairs_at(b@, q as int, n as nat) {
            Some((ts, e)) => {
                assert(pairs_view(out@) + ts =~= ts);
            },
            None => {},
        }
    }
    let ghost whole = pairs_at(b@, q as int, n as nat);
    while i < n
        invariant
            i <= n,
            whole == prepend(pairs_view(out@), pairs_at(b@, q as int, (n - i) as nat)),
            whole == pair_list_at(b@, p as int),
        decreases n - i,
    {
        proof {
            lemma_pairs_step(b@, q as int, (n - i) as nat, pairs_view(out@));
        }
        let (account, e1) = match read_name(b, q) {
            Some(x) => x,
            None => return None,
        };
        let (v, e2) = match read_uint(b, e1, 4) {
            Some(x) => x,
            None => return None,
        };
        let ghost before = out@;
        out.push(RespectPair { account, respect: v as u32 });
        assert(pairs_view(out@) =~= pairs_view(before).push((account@, v as u32)));
        q = e2;
        i = i + 1;
    }
    proof {
        assert(pairs_view(out@) + Seq::<(Seq<char>, u32)>::empty() =~= pairs_view(out@));
    }
    Some((out, q))
}

fn read_opt_checksum(b: &[u8], p: usize) -> (r: Option<(Option<String>, usize)>)
    ensures
        match r {
            Some((v, q)) => opt_checksum_at(b@, p as int) == Some((crate::chain::opt_text(v), q as int)),
            None => opt_checksum_at(b@, p as int) is None,
        },
{
    let (flag, q) = match read_uint(b, p, 1) {
        Some(x) => x,
        None => return None,
    };
    if flag == 0 {
        Some((None, q))
    } else if flag == 1 {
        match read_checksum(b, q) {
            Some((t, e)) => Some((Some(t), e)),
            None => None,
        }
    } else {
        None
    }
}

/// What a payload's bytes decode to, for an action of the given kind.
pub open spec fn raw_record(kind: ActionKind, b: Seq<u8>) -> Option<RecordV> {
    let n = b.len() as int;
    match kind {
        ActionKind::Put => match name_at(b, 0) {
            Some((author, p1)) => match uint_at(b, p1, 1) {
                Some((k, p2)) => match checksum_at(b, p2) {
                    Some((hash, p3)) => match opt_checksum_at(b, p3) {
                        Some((parent, p4)) => match uint_at(b, p4, 4) {
                            Some((ts, p5)) => match list_at(false, b, p5) {
                                Some((tags, e)) => if e == n {
                                    Some(RecordV::Put(PutV { author, kind: k as u8, hash, parent, ts: ts as u32, tags }))
                                } else {
                                    None
                                },
                                None => None,
                            },
                            None => None,
                        },
                        None => None,
                    },
                    None => None,
                },
                None => None,
            },
            None => None,
        },
        ActionKind::Attest => match name_at(b, 0) {
            Some((attestor, p1)) => match checksum_at(b, p1) {
                Some((tx_hash, p2)) => match uint_at(b, p2, 1) {
                    Some((c, e)) => if e == n {
                        Some(RecordV::Attest(AttestV { attestor, tx_hash, confirmed_type: c as u8 }))
                    } else {
                        None
                    },
                    None => None,
                },
                None => None,
            },
            None => None,
        },
        ActionKind::Vote => match name_at(b, 0) {
            Some((voter, p1)) => match checksum_at(b, p1) {
                Some((tx_hash, p2)) => match uint_at(b, p2, 1) {
                    Some((v, e)) => if e == n {
                        Some(RecordV::Vote(VoteV { voter, tx_hash, val: (v as u8) as i8 }))
                    } else {
                        None
                    },
                    None => None,
                },
                None => None,
            },
            None => None,
        },
        ActionKind::Finalize => match checksum_at(b, 0) {
            Some((tx_hash, e)) => if e == n {
                Some(RecordV::Finalize(tx_hash))
            } else {
                None
            },
            None => None,
        },
        ActionKind::Stake | ActionKind::Unstake => match name_at(b, 0) {
            Some((account, p1)) => match checksum_at(b, p1) {
                Some((node_id, p2)) => match asset_at(b, p2) {
                    Some((quantity, e)) => if e == n {
                        let s = StakeV { account, node_id, quantity };
                        if kind == ActionKind::Stake {
                            Some(RecordV::Stake(s))
                        } else {
                            Some(RecordV::Unstake(s))
                        }
                    } else {
                        None
                    },
                    None => None,
                },
                None => None,
            },
            None => None,
        },
        ActionKind::Like => match name_at(b, 0) {
            Some((account, p1)) => match checksum_at(b, p1) {
                Some((node_id, p2)) => match list_at(true, b, p2) {
                    Some((node_path, e)) => if e == n {
                        Some(RecordV::Like(LikeV { account, node_id, node_path }))
                    } else {
                        None
                    },
                    None => None,
                },
                None => None,
            },
            None => None,
        },
        ActionKind::Unlike => match name_at(b, 0) {
            Some((account, p1)) => match checksum_at(b, p1) {
                Some((node_id, e)) => if e == n {
                    Some(RecordV::Unlike(account, node_id))
                } else {
                    None
                },
                None => None,
            },
            None => None,
        },
        ActionKind::UpdateRespect => match pair_list_at(b, 0) {
            Some((pairs, p1)) => match uint_at(b, p1, 8) {
                Some((round, e)) => if e == n {
                    Some(RecordV::UpdateRespect(pairs, round as u64))
                } else {
                    None
                },
                None => None,
            },
            None => None,
        },
    }
}

/// Whether an executable decode result is the spec one.
pub open spec fn record_as(r: Option<ActionRecord>, s: Option<RecordV>) -> bool {
    match r {
        Some(x) => s == Some(x@),
        None => s is None,
    }
}

/// Decodes the binary arguments of an action of the given kind.
pub fn decode_raw(kind: ActionKind, b: &[u8]) -> (r: Option<ActionRecord>)
    ensures
        record_as(r, raw_record(kind, b@)),
{
    match kind {
        ActionKind::Put => {
            let (author, p1) = match read_name(b, 0) {
                Some(x) => x,
                None => return None,
            };
            let (k, p2) = match read_uint(b, p1, 1) {
                Some(x) => x,
                None => return None,
            };
            let (hash, p3) = match read_checksum(b, p2) {
                Some(x) => x,
                None => return None,
            };
            let (parent, p4) = match read_opt_checksum(b, p3) {
                Some(x) => x,
                None => return None,
            };
            let (ts, p5) = match read_uint(b, p4, 4) {
                Some(x) => x,
                None => return None,
            };
            let (tags, e) = match read_list(false, b, p5) {
                Some(x) => x,
                None => return None,
            };
            if e != b.len() {
                return None;
            }
            Some(ActionRecord::Put(Put { author, kind: k as u8, hash, parent, ts: ts as u32, tags }))
        },
        ActionKind::Attest | ActionKind::Vote => {
            let (who, p1) = match read_name(b, 0) {
                Some(x) => x,
                None => return None,
            };
            let (tx_hash, p2) = match read_checksum(b, p1) {
                Some(x) => x,
                None => return None,
            };
            let (v, e) = match read_uint(b, p2, 1) {
                Some(x) => x,
                None => return None,
            };
            if e != b.len() {
                return None;
            }
            if kind == ActionKind::Attest {
                Some(ActionRecord::Attest(Attest { attestor: who, tx_hash, confirmed_type: v as u8 }))
            } else {
                Some(ActionRecord::Vote(Vote { voter: who, tx_hash, val: (v as u8) as i8 }))
            }
        },
        ActionKind::Finalize => {
            let (tx_hash, e) = match read_checksum(b, 0) {
                Some(x) => x,
                None => return None,
            };
            if e != b.len() {
                return None;
            }
            Some(ActionRecord::Finalize(Finalize { tx_hash }))
        },
        ActionKind::Stake | ActionKind::Unstake | ActionKind::Like | ActionKind::Unlike => {
            let (account, p1) = match read_name(b, 0) {
                Some(x) => x,
                None => return None,
            };
            let (node_id, p2) = match read_checksum(b, p1) {
                Some(x) => x,
                None => return None,
            };
            if kind == ActionKind::Unlike {
                if p2 != b.len() {
                    return None;
                }
                return Some(ActionRecord::Unlike(Unlike { account, node_id }));
            }
            if kind == ActionKind::Like {
                let (node_path, e) = match read_list(true, b, p2) {
                    Some(x) => x,
                    None => return None,
                };
                if e != b.len() {
                    return None;
                }
                return Some(ActionRecord::Like(Like { account, node_id, node_path }));
            }
            let (quantity, e) = match read_asset(b, p2) {
                Some(x) => x,
                None => return None,
            };
            if e != b.len() {
                return None;
            }
            let s = Stake { account, node_id, quantity };
            if kind == ActionKind::Stake {
                Some(ActionRecord::Stake(s))
            } else {
                Some(ActionRecord::Unstake(s))
            }
        },
        ActionKind::UpdateRespect => {
            let (respect_data, p1) = match read_pairs(b, 0) {
                Some(x) => x,
                None => return None,
            };
            let (round, e) = match read_uint(b, p1, 8) {
                Some(x) => x,
                None => return None,
            };
            if e != b.len() {
                return None;
            }
            Some(ActionRecord::UpdateRespect(UpdateRespect { respect_data, election_round: round }))
        },
    }
}

} // verus!
