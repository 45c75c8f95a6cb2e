//! The reconciliation state machine.
//!
//! One cycle runs in up to four decision points, one per remote reply. The
//! surrounding process performs the remote calls (IP fetch, entry listing,
//! version read, guarded mutation) and hands each reply in as a plain
//! value; every decision between two calls is made and proved here. A
//! `Settled` step ends the cycle: no further remote call is owed.

use vstd::prelude::*;
use crate::cidr::{dec_chars, format_cidr};
use crate::ipv4::{is_ipv4_text, is_valid_ipv4};
use crate::text::{trimmed, trim_text};

verus! {

/// One row of the remote allowlist: an address range and its description.
#[derive(Debug, Clone, PartialEq, Eq)]
pub struct RemoteEntry {
    pub cidr: String,
    pub description: String,
}

/// How a remote call failed, as the transport reports it.
#[derive(Debug, Clone, Copy, PartialEq, Eq, Structural)]
pub enum RemoteFailure {
    /// The guarded mutation was rejected: the expected version was stale.
    VersionConflict,
    /// The list does not exist.
    NotFound,
    /// Any other transport or service failure.
    Other,
}

/// Why a reconciliation cycle failed.
#[derive(Debug, Clone, Copy, PartialEq, Eq, Structural)]
pub enum ReconcileError {
    /// The IP source could not be reached or returned no text.
    FetchFailed,
    /// The IP source returned text that is not an IPv4 dotted-quad.
    InvalidAddress,
    /// The guarded mutation lost a race against a concurrent writer; the
    /// next cycle retries from scratch.
    VersionConflict,
    /// Any other remote failure, a missing list included.
    RemoteError,
}

/// What one reconciliation cycle concluded.
#[derive(Debug, Clone, PartialEq, Eq)]
pub enum ReconciliationOutcome {
    /// The fetched address equals the remembered one; nothing was done.
    Unchanged,
    /// The remote list already carries the candidate entry; only the
    /// remembered address was brought up to date.
    AlreadyPresent,
    /// The remote list was mutated: `removed_count` stale owned entries
    /// went out and `new_cidr` came in.
    Updated { removed_count: usize, new_cidr: String },
    /// The cycle failed; the remembered address is untouched.
    Failed { error: ReconcileError },
}

/// The error under which a remote failure surfaces: a stale-version
/// rejection stays distinguishable, everything else is generic.
pub open spec fn classified(f: RemoteFailure) -> ReconcileError {
    match f {
        RemoteFailure::VersionConflict => ReconcileError::VersionConflict,
        RemoteFailure::NotFound => ReconcileError::RemoteError,
        RemoteFailure::Other => ReconcileError::RemoteError,
    }
}

/// Map a transport failure to the error its cycle reports.
pub fn classify_failure(f: &RemoteFailure) -> (e: ReconcileError)
    ensures
        e == classified(*f),
{
    match f {
        RemoteFailure::VersionConflict => ReconcileError::VersionConflict,
        RemoteFailure::NotFound => ReconcileError::RemoteError,
        RemoteFailure::Other => ReconcileError::RemoteError,
    }
}

/// The CIDRs of the entries whose description equals `tag`, in order.
pub open spec fn owned_cidrs_of(entries: Seq<RemoteEntry>, tag: Seq<char>) -> Seq<Seq<char>>
    decreases entries.len(),
{
    if entries.len() == 0 {
        Seq::empty()
    } else if entries.last().description@ == tag {
        owned_cidrs_of(entries.drop_last(), tag).push(entries.last().cidr@)
    } else {
        owned_cidrs_of(entries.drop_last(), tag)
    }
}

/// Keep, in order, the CIDR of every entry this system owns: those whose
/// description equals `tag`.
pub fn owned_cidrs(entries: &Vec<RemoteEntry>, tag: &str) -> (r: Vec<String>)
    ensures
        r.deep_view() == owned_cidrs_of(entries@, tag@),
{
    let tag_owned: String = tag.to_owned();
    let mut r: Vec<String> = Vec::new();
    proof {
        assert(r.deep_view() =~= owned_cidrs_of(entries@.subrange(0, 0), tag@));
    }
    let mut i: usize = 0;
    while i < entries.len()
        invariant
            i <= entries@.len(),
            tag_owned@ == tag@,
            r.deep_view() == owned_cidrs_of(entries@.subrange(0, i as int), tag@),
        decreases entries@.len() - i,
    {
        proof {
            let pre = entries@.subrange(0, i as int);
            let post = entries@.subrange(0, i + 1);
            assert(post.drop_last() =~= pre);
            assert(post.last() == entries@[i as int]);
        }
        let ghost old_deep = r.deep_view();
        let e = &entries[i];
        if e.description.eq(&tag_owned) {
            r.push(e.cidr.clone());
            proof {
                assert(r.deep_view() =~= old_deep.push(entries@[i as int].cidr@));
            }
        }
        i += 1;
    }
    proof {
        assert(entries@.subrange(0, entries@.len() as int) =~= entries@);
    }
    r
}

/// Whether some element of `v` has exactly the text of `x`.
fn contains_text(v: &Vec<String>, x: &String) -> (b: bool)
    ensures
        b == v.deep_view().contains(x@),
{
    let mut i: usize = 0;
    while i < v.len()
        invariant
            i <= v@.len(),
            forall|t: int| 0 <= t < i ==> v.deep_view()[t] != x@,
        decreases v@.len() - i,
    {
        if v[i].eq(x) {
            proof {
                assert(v.deep_view()[i as int] == x@);
            }
            return true;
        }
        i += 1;
    }
    false
}

/// What to do after the external address was fetched.
#[derive(Debug, Clone, PartialEq, Eq)]
pub enum FetchStep {
    /// The cycle is over; no remote call is made.
    Settled { outcome: ReconciliationOutcome },
    /// A change (or cold start) was detected: list the owned entries next.
    QueryEntries { address: String, candidate_cidr: String },
}

/// What to do after the owned entries were listed.
#[derive(Debug, Clone, PartialEq, Eq)]
pub enum EntriesStep {
    /// The cycle is over; no mutation is submitted.
    Settled { outcome: ReconciliationOutcome },
    /// Read the list's version, then submit one atomic mutation that
    /// removes `removals` and adds `addition_cidr`, guarded by that version.
    SubmitMutation { removals: Vec<String>, addition_cidr: String },
}

/// What to do after the list's version was read.
#[derive(Debug, Clone, PartialEq, Eq)]
pub enum VersionStep {
    /// The cycle is over; no mutation is submitted.
    Settled { outcome: ReconciliationOutcome },
    /// Submit the mutation guarded by this expected version.
    Proceed { expected_version: i64 },
}

/// The reconciler: the remembered address and the list's coordinates.
///
/// The remembered address lives for the process lifetime only, so the
/// first cycle after a start always treats the fetched address as changed.
#[derive(Debug, Clone, PartialEq, Eq)]
pub struct Reconciler {
    /// The address the last successful cycle saw, if any.
    pub last_known_address: Option<String>,
    /// The identifier of the remote list.
    pub list_identifier: String,
    /// The description marking entries this system owns.
    pub entry_tag: String,
    /// The CIDR mask bits appended to the fetched address.
    pub address_suffix: u8,
}

impl Reconciler {
    /// The suffix denotes IPv4 mask bits.
    pub open spec fn wf(self) -> bool {
        self.address_suffix <= 32
    }

    /// A reconciler that remembers no address yet.
    pub fn new(list_identifier: String, entry_tag: String, address_suffix: u8) -> (r: Reconciler)
        requires
            address_suffix <= 32,
        ensures
            r.wf(),
            r.last_known_address is None,
            r.list_identifier == list_identifier,
            r.entry_tag == entry_tag,
            r.address_suffix == address_suffix,
    {
        Reconciler { last_known_address: None, list_identifier, entry_tag, address_suffix }
    }

    /// Decide on the fetched text, `None` standing for a failed fetch.
    ///
    /// A missing or malformed address fails the cycle with no remote call
    /// and no state change. A fetched address equal to the remembered one
    /// settles as `Unchanged`, again with no remote call. Anything else is
    /// a detected change: the owned entries are to be listed next, with the
    /// candidate entry `address/suffix`.
    pub fn on_fetch(&self, fetched: Option<String>) -> (step: FetchStep)
        ensures
            ({
                match fetched {
                    None => step == (FetchStep::Settled {
                        outcome: (ReconciliationOutcome::Failed {
                            error: ReconcileError::FetchFailed,
                        }),
                    }),
                    Some(text) => {
                        let t = trimmed(text@);
                        if !is_ipv4_text(t) {
                            step == (FetchStep::Settled {
                                outcome: (ReconciliationOutcome::Failed {
                                    error: ReconcileError::InvalidAddress,
                                }),
                            })
                        } else if self.last_known_address matches Some(known) && known@ == t {
                            step == (FetchStep::Settled {
                                outcome: ReconciliationOutcome::Unchanged,
                            })
                        } else {
                            step matches FetchStep::QueryEntries { address, candidate_cidr }
                                && address@ == t
                                && candidate_cidr@ == t + seq!['/'] + dec_chars(
                                self.address_suffix as int)
                        }
                    },
                }
            }),
    {
        match fetched {
            None => FetchStep::Settled {
                outcome: ReconciliationOutcome::Failed { error: ReconcileError::FetchFailed },
            },
            Some(text) => {
                let t: &str = trim_text(text.as_str());
                if !is_valid_ipv4(t) {
                    FetchStep::Settled {
                        outcome: ReconciliationOutcome::Failed {
                            error: ReconcileError::InvalidAddress,
                        },
                    }
                } else {
                    let address: String = t.to_owned();
                    let mut unchanged = false;
                    match &self.last_known_address {
                        Some(known) => {
                            if known.eq(&address) {
                                unchanged = true;
                            }
                        },
                        None => {},
                    }
                    if unchanged {
                        FetchStep::Settled { outcome: ReconciliationOutcome::Unchanged }
                    } else {
                        let candidate_cidr = format_cidr(t, self.address_suffix);
                        FetchStep::QueryEntries { address, candidate_cidr }
                    }
                }
            },
        }
    }

    /// Decide after the owned entries were listed (or the listing failed).
    ///
    /// A failed listing fails the cycle with no state change. If the
    /// candidate is already among the owned entries verbatim, the cycle
    /// settles as `AlreadyPresent` and only the remembered address moves to
    /// the fetched one. Otherwise one atomic mutation is owed: remove every
    /// owned entry, add the candidate.
    pub fn on_entries(
        &mut self,
        address: String,
        candidate_cidr: String,
        listed: Result<Vec<RemoteEntry>, RemoteFailure>,
    ) -> (step: EntriesStep)
        ensures
            ({
                match listed {
                    Err(f) => *final(self) == *old(self) && step == (EntriesStep::Settled {
                        outcome: (ReconciliationOutcome::Failed { error: classified(f) }),
                    }),
                    Ok(entries) => {
                        let owned = owned_cidrs_of(entries@, old(self).entry_tag@);
                        if owned.contains(candidate_cidr@) {
                            &&& step == (EntriesStep::Settled {
                                outcome: ReconciliationOutcome::AlreadyPresent,
                            })
                            &&& final(self).last_known_address == Some(address)
                            &&& final(self).list_identifier == old(self).list_identifier
                            &&& final(self).entry_tag == old(self).entry_tag
                            &&& final(self).address_suffix == old(self).address_suffix
                        } else {
                            &&& *final(self) == *old(self)
                            &&& (step matches EntriesStep::SubmitMutation {
                                removals,
                                addition_cidr,
                            } && removals.deep_view() == owned && addition_cidr == candidate_cidr)
                        }
                    },
                }
            }),
    {
        match listed {
            Err(f) => EntriesStep::Settled {
                outcome: ReconciliationOutcome::Failed { error: classify_failure(&f) },
            },
            Ok(entries) => {
                let owned = owned_cidrs(&entries, self.entry_tag.as_str());
                if contains_text(&owned, &candidate_cidr) {
                    self.last_known_address = Some(address);
                    EntriesStep::Settled { outcome: ReconciliationOutcome::AlreadyPresent }
                } else {
                    EntriesStep::SubmitMutation { removals: owned, addition_cidr: candidate_cidr }
                }
            },
        }
    }

    /// Decide after the list's version was looked up.
    ///
    /// `looked` is `Err` when the read itself failed, `Ok(None)` when the
    /// list was not found, and `Ok(Some(v))` for a found list whose version
    /// field is `v`; a list without a version counts as version zero.
    pub fn on_version(&self, looked: Result<Option<Option<i64>>, RemoteFailure>) -> (step:
        VersionStep)
        ensures
            ({
                match looked {
                    Err(f) => step == (VersionStep::Settled {
                        outcome: (ReconciliationOutcome::Failed { error: classified(f) }),
                    }),
                    Ok(None) => step == (VersionStep::Settled {
                        outcome: (ReconciliationOutcome::Failed {
                            error: ReconcileError::RemoteError,
                        }),
                    }),
                    Ok(Some(None)) => step == (VersionStep::Proceed { expected_version: 0 }),
                    Ok(Some(Some(v))) => step == (VersionStep::Proceed { expected_version: v }),
                }
            }),
    {
        match looked {
            Err(f) => VersionStep::Settled {
                outcome: ReconciliationOutcome::Failed { error: classify_failure(&f) },
            },
            Ok(None) => VersionStep::Settled {
                outcome: ReconciliationOutcome::Failed { error: ReconcileError::RemoteError },
            },
            Ok(Some(None)) => VersionStep::Proceed { expected_version: 0 },
            Ok(Some(Some(v))) => VersionStep::Proceed { expected_version: v },
        }
    }

    /// Decide after the guarded mutation came back.
    ///
    /// On success the remembered address moves to the fetched one and the
    /// cycle reports what changed. On any failure — a version conflict
    /// included — the remembered address is untouched, so the next cycle
    /// retries the whole detection and mutation sequence.
    pub fn on_mutate_result(
        &mut self,
        address: String,
        candidate_cidr: String,
        removed_count: usize,
        submitted: Result<i64, RemoteFailure>,
    ) -> (out: ReconciliationOutcome)
        ensures
            ({
                match submitted {
                    Ok(_) => {
                        &&& out == (ReconciliationOutcome::Updated {
                            removed_count: removed_count,
                            new_cidr: candidate_cidr,
                        })
                        &&& final(self).last_known_address == Some(address)
                        &&& final(self).list_identifier == old(self).list_identifier
                        &&& final(self).entry_tag == old(self).entry_tag
                        &&& final(self).address_suffix == old(self).address_suffix
                    },
                    Err(f) => *final(self) == *old(self) && out == (ReconciliationOutcome::Failed {
                        error: classified(f),
                    }),
                }
            }),
    {
        match submitted {
            Ok(_) => {
                self.last_known_address = Some(address);
                ReconciliationOutcome::Updated { removed_count, new_cidr: candidate_cidr }
            },
            Err(f) => ReconciliationOutcome::Failed { error: classify_failure(&f) },
        }
    }
}

/// The owned CIDRs once a guarded mutation is applied: the removals leave
/// and the addition comes in.
pub open spec fn owned_after_mutation(
    owned: Set<Seq<char>>,
    removals: Seq<Seq<char>>,
    addition: Seq<char>,
) -> Set<Seq<char>> {
    owned.difference(removals.to_set()).insert(addition)
}

/// A successful change cycle leaves exactly one owned entry.
///
/// The mutation submitted when the candidate was not yet present removes
/// every owned CIDR and adds the candidate, so whatever the owned entries
/// were, applying it leaves the candidate alone.
pub proof fn lemma_mutation_leaves_single_entry(
    entries: Seq<RemoteEntry>,
    tag: Seq<char>,
    candidate: Seq<char>,
)
    ensures
        owned_after_mutation(
            owned_cidrs_of(entries, tag).to_set(),
            owned_cidrs_of(entries, tag),
            candidate,
        ) =~= set![candidate],
{
    let owned = owned_cidrs_of(entries, tag).to_set();
    assert(owned.difference(owned) =~= Set::empty());
}

} // verus!
