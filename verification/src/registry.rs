//! The calls that extensions make to the carrier.

use vstd::prelude::*;

use crate::ids::{CallId, DialogId, PlanId, ResponderId, SocketAddr};
use crate::table::{dropped, lists, Table};
use crate::text::same;

verus! {

/// A call between an extension and the carrier. It consists of two dialogs, one
/// on either side.
#[derive(Debug)]
pub struct OutboundCallEntry {
    /// The Call-ID on the extension's side.
    pub ext_call_id: String,
    /// The Call-ID on the carrier's side.
    pub ngn_call_id: String,
    /// The AOR of the extension.
    pub from_aor: String,
    /// The dialog with the extension.
    pub ext_dialog: DialogId,
    /// The dialog with the carrier.
    pub ngn_dialog: DialogId,
    /// How the extension's INVITE was answered.
    pub ext_responder: ResponderId,
    /// Where the extension is.
    pub ext_remote: SocketAddr,
    /// The bridge, where there is one.
    pub bridge_call_id: Option<CallId>,
}

/// An INVITE to the carrier that was not answered yet.
#[derive(Debug)]
pub struct PendingOutbound {
    /// The Call-ID on the extension's side.
    pub ext_call_id: String,
    /// The INVITE to the carrier.
    pub invite_plan: PlanId,
    /// How the extension's INVITE is answered.
    pub ext_responder: ResponderId,
}

/// The contents of an [`OutboundCallRegistry`].
#[verifier::ext_equal]
pub struct RegistryView {
    /// The calls, by the Call-ID on the extension's side.
    pub by_ext: Map<Seq<char>, OutboundCallEntry>,
    /// The Call-ID on the extension's side, by that on the carrier's.
    pub ngn_to_ext: Map<Seq<char>, Seq<char>>,
    /// The INVITEs that were not answered yet, by the Call-ID on the extension's
    /// side.
    pub pending: Map<Seq<char>, PendingOutbound>,
}

/// The calls that extensions make. Each can be found from either side.
#[derive(Debug)]
pub struct OutboundCallRegistry {
    by_ext: Table<OutboundCallEntry>,
    ngn_to_ext: Table<String>,
    pending: Table<PendingOutbound>,
}

/// The texts of the strings in `m`.
pub open spec fn texts(m: Map<Seq<char>, String>) -> Map<Seq<char>, Seq<char>> {
    Map::new(|k: Seq<char>| m.contains_key(k), |k: Seq<char>| m[k]@)
}

impl View for OutboundCallRegistry {
    type V = RegistryView;

    closed spec fn view(&self) -> RegistryView {
        RegistryView {
            by_ext: self.by_ext@,
            ngn_to_ext: texts(self.ngn_to_ext@),
            pending: self.pending@,
        }
    }
}

impl RegistryView {
    /// A registry without calls.
    pub open spec fn empty() -> RegistryView {
        RegistryView { by_ext: Map::empty(), ngn_to_ext: Map::empty(), pending: Map::empty() }
    }

    /// The two ways to find a call agree.
    pub open spec fn well_formed(self) -> bool {
        &&& forall|k: Seq<char>| #[trigger]
            self.by_ext.contains_key(k) ==> {
                &&& self.by_ext[k].ext_call_id@ == k
                &&& self.ngn_to_ext.contains_key(self.by_ext[k].ngn_call_id@)
                &&& self.ngn_to_ext[self.by_ext[k].ngn_call_id@] == k
            }
        &&& forall|n: Seq<char>| #[trigger]
            self.ngn_to_ext.contains_key(n) ==> {
                &&& self.by_ext.contains_key(self.ngn_to_ext[n])
                &&& self.by_ext[self.ngn_to_ext[n]].ngn_call_id@ == n
            }
    }

    /// The call `id` of an extension.
    pub open spec fn found_by_ext(self, id: Seq<char>) -> Option<OutboundCallEntry> {
        if self.by_ext.contains_key(id) {
            Some(self.by_ext[id])
        } else {
            None
        }
    }

    /// The call `id` of the carrier.
    pub open spec fn found_by_ngn(self, id: Seq<char>) -> Option<OutboundCallEntry> {
        if self.ngn_to_ext.contains_key(id) {
            self.found_by_ext(self.ngn_to_ext[id])
        } else {
            None
        }
    }

    /// The registry with the call `entry`.
    pub open spec fn with_call(self, entry: OutboundCallEntry) -> RegistryView {
        RegistryView {
            by_ext: self.by_ext.insert(entry.ext_call_id@, entry),
            ngn_to_ext: self.ngn_to_ext.insert(entry.ngn_call_id@, entry.ext_call_id@),
            ..self
        }
    }

    /// The registry without the call `id` of an extension.
    pub open spec fn without_ext(self, id: Seq<char>) -> RegistryView {
        if self.by_ext.contains_key(id) {
            RegistryView {
                by_ext: self.by_ext.remove(id),
                ngn_to_ext: self.ngn_to_ext.remove(self.by_ext[id].ngn_call_id@),
                ..self
            }
        } else {
            self
        }
    }

    /// The registry without the call `id` of the carrier.
    pub open spec fn without_ngn(self, id: Seq<char>) -> RegistryView {
        if self.ngn_to_ext.contains_key(id) {
            RegistryView {
                by_ext: self.by_ext.remove(self.ngn_to_ext[id]),
                ngn_to_ext: self.ngn_to_ext.remove(id),
                ..self
            }
        } else {
            self
        }
    }

    /// Whether `id` is the carrier's Call-ID of a call that `aor` made.
    pub open spec fn is_ngn_call_of(self, aor: Seq<char>, id: Seq<char>) -> bool {
        exists|k: Seq<char>| #[trigger]
            self.by_ext.contains_key(k) && self.by_ext[k].from_aor@ == aor
                && self.by_ext[k].ngn_call_id@ == id
    }

    /// The registry without the calls that `aor` made.
    pub open spec fn without_aor(self, aor: Seq<char>) -> RegistryView {
        RegistryView {
            by_ext: dropped(self.by_ext, made_by(aor)),
            ngn_to_ext: Map::new(
                |n: Seq<char>| self.ngn_to_ext.contains_key(n) && !self.is_ngn_call_of(aor, n),
                |n: Seq<char>| self.ngn_to_ext[n],
            ),
            ..self
        }
    }
}

/// Whether a call was made by `aor`.
pub open spec fn made_by(aor: Seq<char>) -> spec_fn(OutboundCallEntry) -> bool {
    |e: OutboundCallEntry| e.from_aor@ == aor
}

impl Default for OutboundCallRegistry {
    /// See [`OutboundCallRegistry::new`].
    fn default() -> (r: Self)
        ensures
            r@ == RegistryView::empty(),
    {
        OutboundCallRegistry::new()
    }
}

impl OutboundCallRegistry {
    /// A registry without calls.
    pub fn new() -> (r: Self)
        ensures
            r@ == RegistryView::empty(),
            r@.well_formed(),
    {
        let r = OutboundCallRegistry {
            by_ext: Table::new(),
            ngn_to_ext: Table::new(),
            pending: Table::new(),
        };
        assert(r@ =~= RegistryView::empty());
        r
    }

    /// Adds an INVITE that was not answered yet.
    pub fn insert_pending(&mut self, p: PendingOutbound)
        ensures
            final(self)@ == (RegistryView {
                pending: old(self)@.pending.insert(p.ext_call_id@, p),
                ..old(self)@
            }),
    {
        self.pending.insert(p.ext_call_id.clone(), p);
        assert(self@ =~= (RegistryView {
            pending: old(self)@.pending.insert(p.ext_call_id@, p),
            ..old(self)@
        }));
    }

    /// Takes the unanswered INVITE of the call `ext_call_id` out.
    pub fn take_pending(&mut self, ext_call_id: &str) -> (r: Option<PendingOutbound>)
        ensures
            r == (if old(self)@.pending.contains_key(ext_call_id@) {
                Some(old(self)@.pending[ext_call_id@])
            } else {
                None
            }),
            final(self)@ == (RegistryView {
                pending: old(self)@.pending.remove(ext_call_id@),
                ..old(self)@
            }),
    {
        let r: Option<PendingOutbound> = self.pending.remove(ext_call_id);
        assert(self@ =~= (RegistryView {
            pending: old(self)@.pending.remove(ext_call_id@),
            ..old(self)@
        }));
        r
    }

    /// The unanswered INVITE of the call `ext_call_id`.
    pub fn get_pending(&self, ext_call_id: &str) -> (r: Option<&PendingOutbound>)
        ensures
            r == (if self@.pending.contains_key(ext_call_id@) {
                Some(&self@.pending[ext_call_id@])
            } else {
                None
            }),
    {
        self.pending.get(ext_call_id)
    }

    /// Adds a call that was answered.
    pub fn insert_confirmed(&mut self, entry: OutboundCallEntry)
        ensures
            final(self)@ == old(self)@.with_call(entry),
    {
        self.ngn_to_ext.insert(entry.ngn_call_id.clone(), entry.ext_call_id.clone());
        self.by_ext.insert(entry.ext_call_id.clone(), entry);
        assert(self@.ngn_to_ext =~= old(self)@.with_call(entry).ngn_to_ext);
        assert(self@ =~= old(self)@.with_call(entry));
    }

    /// The call `ext_call_id` of an extension.
    pub fn lookup_by_ext(&self, ext_call_id: &str) -> (r: Option<&OutboundCallEntry>)
        ensures
            r is Some <==> self@.found_by_ext(ext_call_id@) is Some,
            r is Some ==> *r->0 == self@.found_by_ext(ext_call_id@)->0,
    {
        self.by_ext.get(ext_call_id)
    }

    /// The call `ngn_call_id` of the carrier.
    pub fn lookup_by_ngn(&self, ngn_call_id: &str) -> (r: Option<&OutboundCallEntry>)
        ensures
            r is Some <==> self@.found_by_ngn(ngn_call_id@) is Some,
            r is Some ==> *r->0 == self@.found_by_ngn(ngn_call_id@)->0,
    {
        match self.ngn_to_ext.get(ngn_call_id) {
            Some(ext_id) => self.by_ext.get(ext_id.as_str()),
            None => None,
        }
    }

    /// Takes the call `ext_call_id` of an extension out.
    pub fn remove_by_ext(&mut self, ext_call_id: &str) -> (r: Option<OutboundCallEntry>)
        ensures
            r == old(self)@.found_by_ext(ext_call_id@),
            final(self)@ == old(self)@.without_ext(ext_call_id@),
    {
        match self.by_ext.remove(ext_call_id) {
            Some(entry) => {
                self.ngn_to_ext.remove(entry.ngn_call_id.as_str());
                assert(self@.ngn_to_ext =~= old(self)@.without_ext(ext_call_id@).ngn_to_ext);
                assert(self@ =~= old(self)@.without_ext(ext_call_id@));
                Some(entry)
            },
            None => {
                assert(self@.by_ext =~= old(self)@.by_ext);
                assert(self@ =~= old(self)@);
                None
            },
        }
    }

    /// Takes the call `ngn_call_id` of the carrier out.
    pub fn remove_by_ngn(&mut self, ngn_call_id: &str) -> (r: Option<OutboundCallEntry>)
        ensures
            r == old(self)@.found_by_ngn(ngn_call_id@),
            final(self)@ == old(self)@.without_ngn(ngn_call_id@),
    {
        match self.ngn_to_ext.remove(ngn_call_id) {
            Some(ext_id) => {
                let r: Option<OutboundCallEntry> = self.by_ext.remove(ext_id.as_str());
                assert(self@.ngn_to_ext =~= old(self)@.without_ngn(ngn_call_id@).ngn_to_ext);
                assert(self@ =~= old(self)@.without_ngn(ngn_call_id@));
                r
            },
            None => {
                assert(self@.ngn_to_ext =~= old(self)@.ngn_to_ext);
                assert(self@ =~= old(self)@);
                None
            },
        }
    }

    /// Takes out the calls that `aor` made, in no stated order.
    pub fn drain_by_aor(&mut self, aor: &str) -> (r: Vec<OutboundCallEntry>)
        ensures
            final(self)@ == old(self)@.without_aor(aor@),
            holds_calls_of(r@, old(self)@, aor@),
    {
        let ghost before = self@;
        let ghost gone = made_by(aor@);
        let pick = |e: &OutboundCallEntry| -> (b: bool)
            ensures
                b == gone(*e),
            { same(e.from_aor.as_str(), aor) };
        let taken: Vec<(String, OutboundCallEntry)> = self.by_ext.extract_if(pick, Ghost(gone));
        let ghost listed = taken@;
        let mut rest: Vec<(String, OutboundCallEntry)> = taken;
        let mut out: Vec<OutboundCallEntry> = Vec::new();
        assert(texts(self.ngn_to_ext@) =~= before.ngn_to_ext);
        while rest.len() > 0
            invariant
                lists(listed, before.by_ext, gone),
                gone == made_by(aor@),
                self.by_ext@ == dropped(before.by_ext, gone),
                self.pending@ == before.pending,
                rest@ == listed.take(rest@.len() as int),
                rest@.len() + out@.len() == listed.len(),
                forall|i: int|
                    0 <= i < out@.len() ==> #[trigger] out@[i] == listed[listed.len() - 1 - i].1,
                forall|n: Seq<char>| #[trigger]
                    self.ngn_to_ext@.contains_key(n) <==> before.ngn_to_ext.contains_key(n) && !(
                    exists|j: int|
                        rest@.len() <= j < listed.len() && (#[trigger] listed[j]).1.ngn_call_id@
                            == n),
                forall|n: Seq<char>| #[trigger]
                    self.ngn_to_ext@.contains_key(n) ==> self.ngn_to_ext@[n]@
                        == before.ngn_to_ext[n],
            decreases rest.len(),
        {
            let ghost n0 = rest@.len() as int;
            let ghost keys0 = self.ngn_to_ext@;
            if let Some((_key, entry)) = rest.pop() {
                assert(entry == listed[n0 - 1].1);
                self.ngn_to_ext.remove(entry.ngn_call_id.as_str());
                proof {
                    let gone_id = entry.ngn_call_id@;
                    assert forall|n: Seq<char>| #[trigger]
                        self.ngn_to_ext@.contains_key(n) <==> before.ngn_to_ext.contains_key(n)
                            && !(exists|j: int|
                            n0 - 1 <= j < listed.len() && (#[trigger] listed[j]).1.ngn_call_id@
                                == n) by {
                        if n == gone_id {
                            assert(listed[n0 - 1].1.ngn_call_id@ == n);
                        } else {
                            assert(self.ngn_to_ext@.contains_key(n) == keys0.contains_key(n));
                        }
                    }
                    assert(listed.take(n0 - 1) =~= listed.take(n0).drop_last());
                }
                out.push(entry);
            }
        }
        proof {
            assert forall|n: Seq<char>|
                before.is_ngn_call_of(aor@, n) == (exists|j: int|
                    0 <= j < listed.len() && (#[trigger] listed[j]).1.ngn_call_id@ == n) by {
                if before.is_ngn_call_of(aor@, n) {
                    let k = choose|k: Seq<char>| #[trigger]
                        before.by_ext.contains_key(k) && before.by_ext[k].from_aor@ == aor@
                            && before.by_ext[k].ngn_call_id@ == n;
                    assert(gone(before.by_ext[k]));
                    let j = choose|j: int| 0 <= j < listed.len() && (#[trigger] listed[j]).0@ == k;
                    assert(listed[j].1.ngn_call_id@ == n);
                }
                if exists|j: int| 0 <= j < listed.len() && (#[trigger] listed[j]).1.ngn_call_id@
                    == n {
                    let j = choose|j: int|
                        0 <= j < listed.len() && (#[trigger] listed[j]).1.ngn_call_id@ == n;
                    assert(before.by_ext.contains_key(listed[j].0@));
                    assert(gone(before.by_ext[listed[j].0@]));
                }
            }
            assert(self@.ngn_to_ext =~= before.without_aor(aor@).ngn_to_ext);
            assert(self@ =~= before.without_aor(aor@));
            let n = listed.len();
            let ids = Seq::new(n, |i: int| listed[n - 1 - i].0@);
            assert forall|i: int| 0 <= i < ids.len() implies {
                &&& before.by_ext.contains_key(#[trigger] ids[i])
                &&& before.by_ext[ids[i]] == out@[i]
                &&& out@[i].from_aor@ == aor@
            } by {
                let e = listed[n - 1 - i];
                assert(before.by_ext.contains_key(e.0@));
                assert(gone(e.1));
                assert(out@[i] == e.1);
            }
            assert forall|k: Seq<char>|
                before.by_ext.contains_key(k) && before.by_ext[k].from_aor@
                    == aor@ implies #[trigger] ids.contains(k) by {
                assert(gone(before.by_ext[k]));
                let j = choose|j: int| 0 <= j < listed.len() && (#[trigger] listed[j]).0@ == k;
                assert(ids[n - 1 - j] == k);
            }
            assert(ids.no_duplicates()) by {
                assert forall|i: int, j: int|
                    0 <= i < ids.len() && 0 <= j < ids.len() && i != j implies ids[i] != ids[j] by {
                    let a = listed[n - 1 - i];
                    let b = listed[n - 1 - j];
                    assert(a.0@ != b.0@);
                }
            }
            assert(are_calls_of(ids, out@, before, aor@));
        }
        out
    }
}

/// Whether `calls` are the calls that `aor` made, each once.
pub open spec fn holds_calls_of(
    calls: Seq<OutboundCallEntry>,
    reg: RegistryView,
    aor: Seq<char>,
) -> bool {
    exists|ids: Seq<Seq<char>>| #[trigger] are_calls_of(ids, calls, reg, aor)
}

/// Whether `calls` are the calls that `aor` made, each once, and `ids` the Call-IDs
/// under which they are kept.
pub open spec fn are_calls_of(
    ids: Seq<Seq<char>>,
    calls: Seq<OutboundCallEntry>,
    reg: RegistryView,
    aor: Seq<char>,
) -> bool {
    &&& ids.len() == calls.len()
    &&& ids.no_duplicates()
    &&& forall|i: int|
        0 <= i < ids.len() ==> {
            &&& reg.by_ext.contains_key(#[trigger] ids[i])
            &&& reg.by_ext[ids[i]] == calls[i]
            &&& calls[i].from_aor@ == aor
        }
    &&& forall|k: Seq<char>|
        reg.by_ext.contains_key(k) && reg.by_ext[k].from_aor@ == aor ==> #[trigger] ids.contains(k)
}

/// A call that was added is found from either side.
pub proof fn law_added_call_is_found(reg: RegistryView, entry: OutboundCallEntry)
    ensures
        reg.with_call(entry).found_by_ext(entry.ext_call_id@) == Some(entry),
        reg.with_call(entry).found_by_ngn(entry.ngn_call_id@) == Some(entry),
{
}

/// The two ways to find a call go on agreeing: when a call is added whose Call-IDs
/// are new, and when calls are taken out from either side or by their AOR.
pub proof fn law_registry_stays_well_formed(
    reg: RegistryView,
    entry: OutboundCallEntry,
    id: Seq<char>,
)
    requires
        reg.well_formed(),
    ensures
        !reg.by_ext.contains_key(entry.ext_call_id@) && !reg.ngn_to_ext.contains_key(
            entry.ngn_call_id@,
        ) ==> reg.with_call(entry).well_formed(),
        reg.without_ext(id).well_formed(),
        reg.without_ngn(id).well_formed(),
        reg.without_aor(id).well_formed(),
{
    let drained = reg.without_aor(id);
    assert forall|k: Seq<char>| #[trigger] drained.by_ext.contains_key(k) implies {
        &&& drained.by_ext[k].ext_call_id@ == k
        &&& drained.ngn_to_ext.contains_key(drained.by_ext[k].ngn_call_id@)
        &&& drained.ngn_to_ext[drained.by_ext[k].ngn_call_id@] == k
    } by {
        assert(reg.by_ext.contains_key(k));
        let n = reg.by_ext[k].ngn_call_id@;
        if reg.is_ngn_call_of(id, n) {
            let other = choose|other: Seq<char>| #[trigger]
                reg.by_ext.contains_key(other) && reg.by_ext[other].from_aor@ == id
                    && reg.by_ext[other].ngn_call_id@ == n;
            assert(reg.ngn_to_ext[n] == other);
            assert(made_by(id)(reg.by_ext[k]));
        }
    }
    assert forall|n: Seq<char>| #[trigger] drained.ngn_to_ext.contains_key(n) implies {
        &&& drained.by_ext.contains_key(drained.ngn_to_ext[n])
        &&& drained.by_ext[drained.ngn_to_ext[n]].ngn_call_id@ == n
    } by {
        assert(reg.ngn_to_ext.contains_key(n));
        let k = reg.ngn_to_ext[n];
        assert(reg.by_ext.contains_key(k));
        if made_by(id)(reg.by_ext[k]) {
            assert(reg.is_ngn_call_of(id, n));
        }
    }
}

/// A call that is taken out from one side is found from neither, and taking it out
/// again, from either side, finds nothing.
pub proof fn law_removed_call_is_gone(reg: RegistryView, entry: OutboundCallEntry)
    requires
        reg.well_formed(),
        reg.found_by_ext(entry.ext_call_id@) == Some(entry),
    ensures
        reg.without_ext(entry.ext_call_id@) == reg.without_ngn(entry.ngn_call_id@),
        ({
            let rest = reg.without_ext(entry.ext_call_id@);
            &&& rest.found_by_ext(entry.ext_call_id@) is None
            &&& rest.found_by_ngn(entry.ngn_call_id@) is None
        }),
{
    assert(reg.by_ext.contains_key(entry.ext_call_id@));
}

/// Adding a call whose Call-IDs are new and taking it out again, from either side,
/// changes nothing.
pub proof fn law_adding_and_removing_a_call_is_nothing(reg: RegistryView, entry: OutboundCallEntry)
    requires
        reg.well_formed(),
        !reg.by_ext.contains_key(entry.ext_call_id@),
        !reg.ngn_to_ext.contains_key(entry.ngn_call_id@),
    ensures
        reg.with_call(entry).without_ext(entry.ext_call_id@) == reg,
        reg.with_call(entry).without_ngn(entry.ngn_call_id@) == reg,
{
    let added = reg.with_call(entry);
    assert(added.by_ext.remove(entry.ext_call_id@) =~= reg.by_ext);
    assert(added.ngn_to_ext.remove(entry.ngn_call_id@) =~= reg.ngn_to_ext);
}

/// Draining an AOR takes out its calls and no other: a call of another AOR is still
/// found from either side.
pub proof fn law_draining_spares_other_extensions(
    reg: RegistryView,
    aor: Seq<char>,
    id: Seq<char>,
)
    requires
        reg.well_formed(),
        reg.by_ext.contains_key(id),
    ensures
        ({
            let rest = reg.without_aor(aor);
            let entry = reg.by_ext[id];
            if entry.from_aor@ == aor {
                &&& rest.found_by_ext(id) is None
                &&& rest.found_by_ngn(entry.ngn_call_id@) is None
            } else {
                &&& rest.found_by_ext(id) == Some(entry)
                &&& rest.found_by_ngn(entry.ngn_call_id@) == Some(entry)
            }
        }),
{
    law_registry_stays_well_formed(reg, reg.by_ext[id], aor);
    let rest = reg.without_aor(aor);
    let entry = reg.by_ext[id];
    assert(made_by(aor)(entry) == (entry.from_aor@ == aor));
    if entry.from_aor@ == aor {
        assert(reg.is_ngn_call_of(aor, entry.ngn_call_id@));
    } else {
        assert(rest.by_ext.contains_key(id));
    }
}

/// A call that is added or taken out leaves every other call, and the INVITEs that await
/// an answer.
pub proof fn law_other_calls_stay(
    reg: RegistryView,
    entry: OutboundCallEntry,
    id: Seq<char>,
    other: Seq<char>,
)
    ensures
        reg.with_call(entry).pending == reg.pending,
        reg.without_ext(id).pending == reg.pending,
        reg.without_ngn(id).pending == reg.pending,
        reg.without_aor(id).pending == reg.pending,
        other != entry.ext_call_id@ ==> reg.with_call(entry).found_by_ext(other)
            == reg.found_by_ext(other),
        other != id ==> reg.without_ext(id).found_by_ext(other) == reg.found_by_ext(other),
        reg.without_ext(id).found_by_ext(id) is None,
        reg.without_ngn(id).found_by_ngn(id) is None,
        reg.found_by_ext(id) is None ==> reg.without_ext(id) == reg,
        !reg.ngn_to_ext.contains_key(id) ==> reg.without_ngn(id) == reg,
{
}

/// A call that is taken out from the carrier's side is the one that was found there, and
/// every other call is still found from both sides.
pub proof fn law_call_is_taken_out_from_the_carriers_side(
    reg: RegistryView,
    id: Seq<char>,
    other: Seq<char>,
)
    requires
        reg.well_formed(),
        other != id,
    ensures
        reg.without_ngn(id).found_by_ngn(other) == reg.found_by_ngn(other),
        reg.found_by_ngn(other) is Some ==> reg.without_ngn(id).found_by_ext(
            reg.found_by_ngn(other)->0.ext_call_id@,
        ) == reg.found_by_ngn(other),
        reg.found_by_ngn(id) is Some ==> {
            &&& reg.found_by_ngn(id)->0.ngn_call_id@ == id
            &&& reg.without_ngn(id).found_by_ext(reg.found_by_ngn(id)->0.ext_call_id@) is None
        },
{
    if reg.ngn_to_ext.contains_key(other) {
        let k = reg.ngn_to_ext[other];
        assert(reg.by_ext.contains_key(k));
    }
    if reg.ngn_to_ext.contains_key(id) {
        let k = reg.ngn_to_ext[id];
        assert(reg.by_ext.contains_key(k));
    }
}

/// What is found of a call is what is kept of it, and nothing is found where nothing is
/// kept. A new registry keeps nothing.
pub proof fn law_found_call_is_the_kept_one(reg: RegistryView, id: Seq<char>)
    ensures
        reg.found_by_ext(id) is Some <==> reg.by_ext.contains_key(id),
        reg.found_by_ext(id) is Some ==> reg.found_by_ext(id)->0 == reg.by_ext[id],
        reg.found_by_ngn(id) is Some ==> reg.ngn_to_ext.contains_key(id) && reg.found_by_ngn(id)
            == reg.found_by_ext(reg.ngn_to_ext[id]),
        reg.well_formed() ==> (reg.found_by_ngn(id) is Some <==> reg.ngn_to_ext.contains_key(id)),
        RegistryView::empty().well_formed(),
        RegistryView::empty().found_by_ext(id) is None,
        RegistryView::empty().found_by_ngn(id) is None,
        !RegistryView::empty().pending.contains_key(id),
{
}

} // verus!
