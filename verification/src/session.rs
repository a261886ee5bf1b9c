//! The session registry: the single source of truth for which ports
//! are open and which of them run a read loop.  The registry abstracts
//! to a map from port path to a flag that is true exactly while a read
//! loop is active, and every command on the surface is specified as a
//! transformation of that map.
//!
//! The registry is generic in the device handle `H`, which it owns but
//! never touches: opening, cloning and the byte I/O on the handle are
//! the embedding application's work at the I/O edge.

use vstd::prelude::*;
use std::sync::mpsc::Receiver;
use std::sync::mpsc::Sender;
use crate::channel::send_signal;
use crate::channel::signal_channel;
use crate::errors::SerialError;
use vstd::string::StringExecFns;

verus! {

/// One open port: the exclusively owned device handle, the path it was
/// opened under, and the send endpoint of the cancellation channel
/// while a read loop is running (`None` otherwise).
struct PortEntry<H> {
    path: String,
    device: H,
    sender: Option<Sender<usize>>,
}

/// The registry of open ports.  A path is "open" exactly when it is a
/// key of the abstraction `self@`, and `self@[path]` is true exactly
/// when a read loop is active for it.
pub struct SerialportState<H> {
    entries: Vec<PortEntry<H>>,
}

impl<H> View for SerialportState<H> {
    type V = Map<Seq<char>, bool>;

    closed spec fn view(&self) -> Map<Seq<char>, bool> {
        SerialportState::<H>::as_map(self.entries@)
    }
}

impl<H> SerialportState<H> {
    /// The abstraction of a sequence of entries: each path mapped to
    /// whether its entry holds a cancellation sender.
    spec fn as_map(s: Seq<PortEntry<H>>) -> Map<Seq<char>, bool>
        decreases s.len(),
    {
        if s.len() == 0 {
            Map::empty()
        } else {
            Self::as_map(s.drop_last()).insert(s.last().path@, s.last().sender is Some)
        }
    }

    spec fn distinct_paths(s: Seq<PortEntry<H>>) -> bool {
        forall|i: int, j: int|
            0 <= i < j < s.len() ==> s[i].path@ != s[j].path@
    }

    /// Well-formedness: no path occurs twice in the registry.
    pub closed spec fn wf(&self) -> bool {
        Self::distinct_paths(self.entries@)
    }

    proof fn lemma_distinct_drop_last(s: Seq<PortEntry<H>>)
        requires
            Self::distinct_paths(s),
            s.len() > 0,
        ensures
            Self::distinct_paths(s.drop_last()),
    {
        assert forall|i: int, j: int|
            0 <= i < j < s.drop_last().len() implies s.drop_last()[i].path@
            != s.drop_last()[j].path@ by {
            assert(s.drop_last()[i] == s[i]);
            assert(s.drop_last()[j] == s[j]);
        }
    }

    proof fn lemma_as_map_contains(s: Seq<PortEntry<H>>, k: Seq<char>)
        ensures
            Self::as_map(s).dom().contains(k) <==> exists|i: int|
                0 <= i < s.len() && s[i].path@ == k,
        decreases s.len(),
    {
        if s.len() == 0 {
        } else {
            Self::lemma_as_map_contains(s.drop_last(), k);
            if s.last().path@ == k {
                assert(s[s.len() - 1].path@ == k);
            } else {
                if Self::as_map(s).dom().contains(k) {
                    let i = choose|i: int|
                        0 <= i < s.drop_last().len() && s.drop_last()[i].path@ == k;
                    assert(s[i].path@ == k);
                }
                if exists|i: int| 0 <= i < s.len() && s[i].path@ == k {
                    let i = choose|i: int| 0 <= i < s.len() && s[i].path@ == k;
                    assert(i < s.len() - 1);
                    assert(s.drop_last()[i].path@ == k);
                }
            }
        }
    }

    proof fn lemma_as_map_value(s: Seq<PortEntry<H>>, i: int)
        requires
            Self::distinct_paths(s),
            0 <= i < s.len(),
        ensures
            Self::as_map(s).dom().contains(s[i].path@),
            Self::as_map(s)[s[i].path@] == (s[i].sender is Some),
        decreases s.len(),
    {
        if i == s.len() - 1 {
        } else {
            Self::lemma_distinct_drop_last(s);
            assert(s.drop_last()[i] == s[i]);
            Self::lemma_as_map_value(s.drop_last(), i);
            assert(s.last().path@ != s[i].path@);
        }
    }

    proof fn lemma_as_map_push(s: Seq<PortEntry<H>>, e: PortEntry<H>)
        ensures
            Self::as_map(s.push(e)) == Self::as_map(s).insert(e.path@, e.sender is Some),
    {
        assert(s.push(e).drop_last() =~= s);
        assert(s.push(e).last() == e);
    }

    proof fn lemma_as_map_remove(s: Seq<PortEntry<H>>, i: int)
        requires
            Self::distinct_paths(s),
            0 <= i < s.len(),
        ensures
            Self::as_map(s.remove(i)) == Self::as_map(s).remove(s[i].path@),
            Self::distinct_paths(s.remove(i)),
        decreases s.len(),
    {
        let k = s[i].path@;
        assert forall|a: int, b: int|
            0 <= a < b < s.remove(i).len() implies s.remove(i)[a].path@
            != s.remove(i)[b].path@ by {
            if a < i {
                assert(s.remove(i)[a] == s[a]);
            } else {
                assert(s.remove(i)[a] == s[a + 1]);
            }
            if b < i {
                assert(s.remove(i)[b] == s[b]);
            } else {
                assert(s.remove(i)[b] == s[b + 1]);
            }
        }
        if i == s.len() - 1 {
            assert(s.remove(i) =~= s.drop_last());
            Self::lemma_as_map_contains(s.drop_last(), k);
            assert(forall|j: int| 0 <= j < s.len() - 1 ==> s[j].path@ != k);
            assert(!Self::as_map(s.drop_last()).dom().contains(k));
            assert(Self::as_map(s.drop_last()).insert(k, s.last().sender is Some).remove(k)
                =~= Self::as_map(s.drop_last()));
        } else {
            Self::lemma_distinct_drop_last(s);
            assert(s.drop_last()[i] == s[i]);
            Self::lemma_as_map_remove(s.drop_last(), i);
            assert(s.remove(i).drop_last() =~= s.drop_last().remove(i));
            assert(s.remove(i).last() == s.last());
            assert(s.last().path@ != k);
            assert(Self::as_map(s.drop_last()).remove(k).insert(
                s.last().path@,
                s.last().sender is Some,
            ) =~= Self::as_map(s.drop_last()).insert(
                s.last().path@,
                s.last().sender is Some,
            ).remove(k));
        }
    }

    proof fn lemma_as_map_update(s: Seq<PortEntry<H>>, i: int, e: PortEntry<H>)
        requires
            Self::distinct_paths(s),
            0 <= i < s.len(),
            e.path@ == s[i].path@,
        ensures
            Self::as_map(s.update(i, e)) == Self::as_map(s).insert(e.path@, e.sender is Some),
            Self::distinct_paths(s.update(i, e)),
        decreases s.len(),
    {
        let k = e.path@;
        assert forall|a: int, b: int|
            0 <= a < b < s.update(i, e).len() implies s.update(i, e)[a].path@
            != s.update(i, e)[b].path@ by {
            assert(s.update(i, e)[a].path@ == s[a].path@);
            assert(s.update(i, e)[b].path@ == s[b].path@);
        }
        if i == s.len() - 1 {
            assert(s.update(i, e).drop_last() =~= s.drop_last());
            assert(s.update(i, e).last() == e);
            assert(Self::as_map(s.drop_last()).insert(k, e.sender is Some)
                =~= Self::as_map(s.drop_last()).insert(k, s.last().sender is Some).insert(
                k,
                e.sender is Some,
            ));
        } else {
            Self::lemma_distinct_drop_last(s);
            assert(s.drop_last()[i] == s[i]);
            Self::lemma_as_map_update(s.drop_last(), i, e);
            assert(s.update(i, e).drop_last() =~= s.drop_last().update(i, e));
            assert(s.update(i, e).last() == s.last());
            assert(s.last().path@ != k);
            assert(Self::as_map(s.drop_last()).insert(k, e.sender is Some).insert(
                s.last().path@,
                s.last().sender is Some,
            ) =~= Self::as_map(s.drop_last()).insert(
                s.last().path@,
                s.last().sender is Some,
            ).insert(k, e.sender is Some));
        }
    }

    /// Looks a path up; `Some(i)` indexes its entry, `None` means the
    /// path has no entry at all.
    fn index_of(&self, path: &String) -> (r: Option<usize>)
        ensures
            match r {
                Option::Some(i) => i < self.entries@.len() && self.entries@[i as int].path@
                    == path@,
                Option::None => forall|i: int|
                    0 <= i < self.entries@.len() ==> self.entries@[i].path@ != path@,
            },
    {
        let mut i: usize = 0;
        while i < self.entries.len()
            invariant
                i <= self.entries@.len(),
                forall|j: int| 0 <= j < i ==> self.entries@[j].path@ != path@,
            decreases self.entries@.len() - i,
        {
            if self.entries[i].path == *path {
                return Some(i);
            }
            i += 1;
        }
        None
    }

    /// Creates an empty registry: no port is open.
    pub fn new() -> (s: Self)
        ensures
            s.wf(),
            s@ == Map::<Seq<char>, bool>::empty(),
    {
        SerialportState { entries: Vec::new() }
    }

    /// Whether `path` is currently open.
    pub fn is_open(&self, path: &String) -> (r: bool)
        ensures
            r == self@.dom().contains(path@),
    {
        proof {
            Self::lemma_as_map_contains(self.entries@, path@);
        }
        self.index_of(path).is_some()
    }

    /// Whether `path` is open with an active read loop.
    pub fn is_reading(&self, path: &String) -> (r: bool)
        requires
            self.wf(),
        ensures
            r == (self@.dom().contains(path@) && self@[path@]),
    {
        proof {
            Self::lemma_as_map_contains(self.entries@, path@);
        }
        match self.index_of(path) {
            Some(i) => {
                proof {
                    Self::lemma_as_map_value(self.entries@, i as int);
                }
                self.entries[i].sender.is_some()
            },
            None => false,
        }
    }

    /// Borrows the device handle of an open path, for the caller's
    /// synchronous I/O; `None` exactly when the path is not open.
    pub fn device(&self, path: &String) -> (r: Option<&H>)
        ensures
            r is Some <==> self@.dom().contains(path@),
    {
        proof {
            Self::lemma_as_map_contains(self.entries@, path@);
        }
        match self.index_of(path) {
            Some(i) => Some(&self.entries[i].device),
            None => None,
        }
    }

    /// Borrows the device handle of an open path mutably, for the
    /// caller's synchronous I/O; `None` exactly when the path is not
    /// open.  Whatever the caller does to the handle, the registry
    /// abstraction is unchanged.
    pub fn device_mut(&mut self, path: &String) -> (r: Option<&mut H>)
        requires
            old(self).wf(),
        ensures
            final(self).wf(),
            final(self)@ == old(self)@,
            r is Some <==> old(self)@.dom().contains(path@),
    {
        proof {
            Self::lemma_as_map_contains(self.entries@, path@);
        }
        match self.index_of(path) {
            Some(i) => {
                let ghost s0 = self.entries@;
                proof {
                    assert forall|e: PortEntry<H>|
                        e.path@ == s0[i as int].path@ && e.sender == s0[i as int].sender implies
                        Self::as_map(s0.update(i as int, e)) == Self::as_map(s0)
                            && Self::distinct_paths(s0.update(i as int, e)) by {
                        Self::lemma_as_map_value(s0, i as int);
                        Self::lemma_as_map_update(s0, i as int, e);
                        assert(Self::as_map(s0).insert(e.path@, e.sender is Some)
                            =~= Self::as_map(s0));
                    }
                }
                let entry = &mut self.entries[i];
                Some(&mut entry.device)
            },
            None => None,
        }
    }

    /// Registers `path` as open, owning `device`; the port starts with
    /// no read loop.  Fails with `AlreadyOpen` exactly when `path` is
    /// already a key of the registry, leaving it unchanged.
    pub fn open(&mut self, path: String, device: H) -> (r: Result<(), SerialError>)
        requires
            old(self).wf(),
        ensures
            final(self).wf(),
            old(self)@.dom().contains(path@) ==> final(self)@ == old(self)@ && (
            r matches Err(SerialError::AlreadyOpen(p)) && p@ == path@),
            !old(self)@.dom().contains(path@) ==> r is Ok && final(self)@ == old(self)@.insert(
                path@,
                false,
            ),
    {
        proof {
            Self::lemma_as_map_contains(self.entries@, path@);
        }
        match self.index_of(&path) {
            Some(_) => Err(SerialError::AlreadyOpen(path)),
            None => {
                let ghost s0 = self.entries@;
                let entry = PortEntry { path, device, sender: None };
                proof {
                    Self::lemma_as_map_push(s0, entry);
                    assert forall|a: int, b: int|
                        0 <= a < b < s0.push(entry).len() implies s0.push(entry)[a].path@
                        != s0.push(entry)[b].path@ by {
                        if b < s0.len() {
                            assert(s0.push(entry)[a] == s0[a]);
                            assert(s0.push(entry)[b] == s0[b]);
                        } else {
                            assert(s0.push(entry)[a] == s0[a]);
                            assert(s0.push(entry)[b] == entry);
                        }
                    }
                }
                self.entries.push(entry);
                Ok(())
            },
        }
    }

    /// Removes `path` from the registry, releasing its device handle,
    /// without signalling any active read loop first.  Fails with
    /// `NotOpen` exactly when `path` is not a key, leaving the registry
    /// unchanged.
    pub fn close(&mut self, path: &String) -> (r: Result<(), SerialError>)
        requires
            old(self).wf(),
        ensures
            final(self).wf(),
            old(self)@.dom().contains(path@) ==> r is Ok && final(self)@ == old(self)@.remove(
                path@,
            ),
            !old(self)@.dom().contains(path@) ==> final(self)@ == old(self)@ && (
            r matches Err(SerialError::NotOpen(p)) && p@ == path@),
    {
        proof {
            Self::lemma_as_map_contains(self.entries@, path@);
        }
        match self.index_of(path) {
            Some(i) => {
                proof {
                    Self::lemma_as_map_remove(self.entries@, i as int);
                }
                let _removed = self.entries.remove(i);
                Ok(())
            },
            None => Err(SerialError::NotOpen(path.clone())),
        }
    }

    /// Like `close`, but first signals an active read loop through its
    /// cancellation channel.  A path that is not open is a successful
    /// no-op.  If the signal cannot be sent, the close is aborted: the
    /// error is reported and the registry is left unchanged.
    pub fn force_close(&mut self, path: &String) -> (r: Result<(), SerialError>)
        requires
            old(self).wf(),
        ensures
            final(self).wf(),
            !old(self)@.dom().contains(path@) ==> r is Ok && final(self)@ == old(self)@,
            old(self)@.dom().contains(path@) && !old(self)@[path@] ==> r is Ok && final(self)@
                == old(self)@.remove(path@),
            old(self)@.dom().contains(path@) && old(self)@[path@] ==> (r is Ok && final(self)@
                == old(self)@.remove(path@)) || (r matches Err(SerialError::Signal(_))
                && final(self)@ == old(self)@),
    {
        proof {
            Self::lemma_as_map_contains(self.entries@, path@);
        }
        match self.index_of(path) {
            Some(i) => {
                proof {
                    Self::lemma_as_map_value(self.entries@, i as int);
                }
                let send_failure: Option<String> = match &self.entries[i].sender {
                    Some(tx) => match send_signal(tx) {
                        Ok(()) => None,
                        Err(d) => Some(d),
                    },
                    None => None,
                };
                match send_failure {
                    Some(d) => {
                        let mut m = String::from_str("Error force closing serial ports: ");
                        m.append(d.as_str());
                        Err(SerialError::Signal(m))
                    },
                    None => {
                        proof {
                            Self::lemma_as_map_remove(self.entries@, i as int);
                        }
                        let _removed = self.entries.remove(i);
                        Ok(())
                    },
                }
            },
            None => Ok(()),
        }
    }

    /// Signals every active read loop, then removes every entry.  On
    /// the first signal failure it aborts with the error, leaving the
    /// registry unchanged (though earlier loops stay signalled).
    pub fn close_all(&mut self) -> (r: Result<(), SerialError>)
        requires
            old(self).wf(),
        ensures
            final(self).wf(),
            r is Ok ==> final(self)@ == Map::<Seq<char>, bool>::empty(),
            r matches Err(e) ==> e is Signal && final(self)@ == old(self)@ && exists|k: Seq<char>|
                old(self)@.dom().contains(k) && old(self)@[k],
    {
        let mut i: usize = 0;
        while i < self.entries.len()
            invariant
                old(self).wf(),
                *self == *old(self),
                i <= self.entries@.len(),
            decreases self.entries@.len() - i,
        {
            let send_failure: Option<String> = match &self.entries[i].sender {
                Some(tx) => match send_signal(tx) {
                    Ok(()) => None,
                    Err(d) => Some(d),
                },
                None => None,
            };
            if let Some(d) = send_failure {
                proof {
                    Self::lemma_as_map_value(self.entries@, i as int);
                }
                let mut m = String::from_str("Error closing serial ports: ");
                m.append(d.as_str());
                return Err(SerialError::Signal(m));
            }
            i += 1;
        }
        self.entries.clear();
        Ok(())
    }

    /// Clears the cancellation sender of `path`, first signalling its
    /// read loop if one is active; clearing happens even when the
    /// signal fails, so the port never appears to be reading
    /// afterwards, and the port itself stays open.  A port with no
    /// active read loop is a successful no-op.  Fails with `NotFound`
    /// exactly when `path` is not open.
    pub fn cancel_read(&mut self, path: &String) -> (r: Result<(), SerialError>)
        requires
            old(self).wf(),
        ensures
            final(self).wf(),
            !old(self)@.dom().contains(path@) ==> final(self)@ == old(self)@ && (
            r matches Err(e) && e is NotFound),
            old(self)@.dom().contains(path@) ==> final(self)@ == old(self)@.insert(path@, false)
                && (r is Ok || (r matches Err(e) && e is Signal && old(self)@[path@])),
            old(self)@.dom().contains(path@) && !old(self)@[path@] ==> r is Ok && final(self)@
                == old(self)@,
    {
        proof {
            Self::lemma_as_map_contains(self.entries@, path@);
        }
        match self.index_of(path) {
            Some(i) => {
                let ghost s0 = self.entries@;
                proof {
                    Self::lemma_as_map_value(s0, i as int);
                }
                let mut e = self.entries.remove(i);
                let send_failure: Option<String> = match &e.sender {
                    Some(tx) => match send_signal(tx) {
                        Ok(()) => None,
                        Err(d) => Some(d),
                    },
                    None => None,
                };
                e.sender = None;
                self.entries.insert(i, e);
                proof {
                    assert(self.entries@ =~= s0.update(i as int, self.entries@[i as int]));
                    Self::lemma_as_map_update(s0, i as int, self.entries@[i as int]);
                    if !old(self)@[path@] {
                        assert(old(self)@.insert(path@, false) =~= old(self)@);
                    }
                }
                match send_failure {
                    Some(d) => {
                        let mut m = String::from_str("Error cancelling read: ");
                        m.append(d.as_str());
                        Err(SerialError::Signal(m))
                    },
                    None => Ok(()),
                }
            },
            None => Err(SerialError::NotFound),
        }
    }

    /// Starts a read loop for `path`: installs a fresh cancellation
    /// sender and hands back the paired receiver for the worker the
    /// caller will spawn.  If a read loop is already active the call is
    /// a no-op that returns `Ok(None)`, so a second `read` never
    /// replaces the first loop's channel.  Fails with `NotFound`
    /// exactly when `path` is not open.
    pub fn read(&mut self, path: &String) -> (r: Result<Option<Receiver<usize>>, SerialError>)
        requires
            old(self).wf(),
        ensures
            final(self).wf(),
            !old(self)@.dom().contains(path@) ==> final(self)@ == old(self)@ && (
            r matches Err(e) && e is NotFound),
            old(self)@.dom().contains(path@) && old(self)@[path@] ==> final(self)@ == old(self)@
                && (r matches Ok(o) && o is None),
            old(self)@.dom().contains(path@) && !old(self)@[path@] ==> final(self)@ == old(
                self,
            )@.insert(path@, true) && (r matches Ok(o) && o is Some),
    {
        proof {
            Self::lemma_as_map_contains(self.entries@, path@);
        }
        match self.index_of(path) {
            Some(i) => {
                let ghost s0 = self.entries@;
                proof {
                    Self::lemma_as_map_value(s0, i as int);
                }
                if self.entries[i].sender.is_some() {
                    Ok(None)
                } else {
                    let (tx, rx) = signal_channel();
                    let mut e = self.entries.remove(i);
                    e.sender = Some(tx);
                    self.entries.insert(i, e);
                    proof {
                        assert(self.entries@ =~= s0.update(i as int, self.entries@[i as int]));
                        Self::lemma_as_map_update(s0, i as int, self.entries@[i as int]);
                    }
                    Ok(Some(rx))
                }
            },
            None => Err(SerialError::NotFound),
        }
    }
}

/// After a successful `open` of a path, that path is a key of the
/// registry abstraction, so by `open`'s contract an immediate second
/// `open` of the same path must fail with `AlreadyOpen`.
pub proof fn lemma_reopen_is_rejected(m: Map<Seq<char>, bool>, p: Seq<char>)
    ensures
        m.insert(p, false).dom().contains(p),
{
}

/// After a successful `close` of a path, that path is no longer a key
/// of the registry abstraction, so by `close`'s contract an immediate
/// second `close` of the same path must fail with `NotOpen`.
pub proof fn lemma_reclose_is_rejected(m: Map<Seq<char>, bool>, p: Seq<char>)
    ensures
        !m.remove(p).dom().contains(p),
{
}

} // verus!
