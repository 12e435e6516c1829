use std::sync::Arc;
use vstd::prelude::*;
use vstd::rwlock::RwLock;

verus! {

/// A scope-scoped shared cell: a value owned by the UI thread that an
/// independently scheduled background task may replace under an exclusive
/// lock, to be observed by the UI thread at its next read.  The lock gives
/// happens-before, not ordering or timeliness: a `set` is only promised to
/// be seen by the `get` calls that start after it returns.
#[verifier::reject_recursive_types(T)]
pub struct ContextState<T> {
    cell: Arc<RwLock<T, spec_fn(T) -> bool>>,
}

impl<T> ContextState<T> {
    /// The cell accepts every value of its type.
    pub closed spec fn wf(&self) -> bool {
        forall|v: T| (*self.cell).inv(v)
    }

    pub fn new(value: T) -> (s: Self)
        ensures
            s.wf(),
    {
        ContextState { cell: Arc::new(RwLock::new(value, Ghost(|v: T| true))) }
    }

    /// Replace the value under the lock.
    pub fn set(&self, value: T)
        requires
            self.wf(),
    {
        let (_prev, write_handle) = self.cell.acquire_write();
        write_handle.release_write(value);
    }
}

impl<T: Clone> ContextState<T> {
    /// A copy of the current value, taken under the lock.
    pub fn get(&self) -> T
        requires
            self.wf(),
    {
        let read_handle = self.cell.acquire_read();
        let value = read_handle.borrow().clone();
        read_handle.release_read();
        value
    }
}

impl<T> Clone for ContextState<T> {
    /// Relies on `Arc::clone`: the new handle shares the cell with this
    /// one, so its abstract value is the same.
    #[verifier::external_body]
    fn clone(&self) -> (s: Self)
        ensures
            *self == s,
    {
        ContextState { cell: Arc::clone(&self.cell) }
    }
}

/// The type a slot was created with.  A slot is only ever read back at the
/// kind it was created at; a mismatch is a contract violation reported to
/// the offending call.
#[derive(Clone, Copy, PartialEq, Eq, Structural, Debug)]
pub enum HookKind {
    Text,
    Flag,
    Choice,
    Shared,
}

/// One positionally addressed persisted value of a hook scope.
pub enum HookValue {
    /// A text buffer, such as the compose box's contents.
    Text(String),
    /// A boolean toggle.
    Flag(bool),
    /// An optional id reference.
    Choice(Option<String>),
    /// A cell shared with background tasks.
    Shared(ContextState<String>),
}

impl HookValue {
    pub open spec fn kind(&self) -> HookKind {
        match self {
            HookValue::Text(_) => HookKind::Text,
            HookValue::Flag(_) => HookKind::Flag,
            HookValue::Choice(_) => HookKind::Choice,
            HookValue::Shared(_) => HookKind::Shared,
        }
    }

    pub open spec fn wf(&self) -> bool {
        match self {
            HookValue::Shared(c) => c.wf(),
            _ => true,
        }
    }

    pub fn current_kind(&self) -> (k: HookKind)
        ensures
            k == self.kind(),
    {
        match self {
            HookValue::Text(_) => HookKind::Text,
            HookValue::Flag(_) => HookKind::Flag,
            HookValue::Choice(_) => HookKind::Choice,
            HookValue::Shared(_) => HookKind::Shared,
        }
    }
}

/// A slot was read back at a kind other than the one it was created with:
/// a programming error, fatal to the responsible call and reported with
/// the scope's name and the offending position; the scope itself is left
/// intact.
#[derive(Debug)]
pub struct HookError {
    pub scope: String,
    pub position: usize,
}

/// A named hook scope: an ordered list of persisted slots and a cursor.
/// UI routines are re-invoked every frame with no call stack of their own;
/// a scope gives them call-order-stable local state.  The unchecked
/// precondition is call-order stability: within a scope, the Nth access of
/// a frame must be the same call site as the Nth access of every other
/// frame, with the same kind — no conditionally skipped hook calls.
pub struct Context {
    pub name: String,
    pub hooks: Vec<HookValue>,
    pub idx: usize,
}

impl Context {
    pub open spec fn wf(&self) -> bool {
        &&& self.idx <= self.hooks@.len()
        &&& forall|i: int| 0 <= i < self.hooks@.len() ==> (#[trigger] self.hooks@[i]).wf()
    }

    pub fn new(name: String) -> (c: Self)
        ensures
            c.wf(),
            c.name == name,
            c.hooks@ == Seq::<HookValue>::empty(),
            c.idx == 0,
    {
        Context { name, hooks: Vec::new(), idx: 0 }
    }

    /// Rewind the cursor for a new frame.  Existing slots are kept — only
    /// the cursor resets.
    pub fn reset(&mut self)
        ensures
            final(self).idx == 0,
            final(self).name == old(self).name,
            final(self).hooks == old(self).hooks,
    {
        self.idx = 0;
    }

    /// The slot at the cursor.  On the first visit to this position ever,
    /// the factory runs once and its result is stored; on every later
    /// visit — this frame or any other — the stored value is returned
    /// unchanged and the factory is ignored.  The cursor advances by one.
    /// A kind mismatch reports an error and leaves the scope untouched.
    pub fn use_hook<F: FnOnce() -> HookValue>(&mut self, kind: HookKind, factory: F) -> (r:
        Result<&mut HookValue, HookError>)
        requires
            old(self).wf(),
            factory.requires(()),
            forall|v: HookValue| factory.ensures((), v) ==> v.kind() == kind && v.wf(),
        ensures
            match r {
                Ok(slot) => {
                    &&& old(self).idx < old(self).hooks@.len() ==> *slot == old(
                        self,
                    ).hooks@[old(self).idx as int]
                    &&& old(self).idx == old(self).hooks@.len() ==> factory.ensures((), *slot)
                    &&& slot.kind() == kind
                    &&& slot.wf()
                    &&& final(self).idx == old(self).idx + 1
                    &&& final(self).name == old(self).name
                    &&& final(self).hooks@.len() == (if old(self).idx < old(self).hooks@.len() {
                        old(self).hooks@.len() as int
                    } else {
                        old(self).hooks@.len() + 1 as int
                    })
                    &&& final(self).hooks@[old(self).idx as int] == *final(slot)
                    &&& forall|j: int|
                        0 <= j < final(self).hooks@.len() && j != old(self).idx
                            ==> final(self).hooks@[j] == old(self).hooks@[j]
                    &&& (final(slot).wf() ==> final(self).wf())
                },
                Err(e) => {
                    &&& *final(self) == *old(self)
                    &&& old(self).idx < old(self).hooks@.len()
                    &&& old(self).hooks@[old(self).idx as int].kind() != kind
                    &&& e.scope == old(self).name
                    &&& e.position == old(self).idx
                },
            },
    {
        let position = self.idx;
        if position == self.hooks.len() {
            self.hooks.push(factory());
        } else {
            let existing_kind = self.hooks[position].current_kind();
            if existing_kind != kind {
                return Err(HookError { scope: self.name.clone(), position });
            }
        }
        let filled = self.hooks.len();
        assert(position < filled);
        self.idx = position + 1;
        let slot = &mut self.hooks[position];
        Ok(slot)
    }

    /// The shared cell at the cursor, created from the factory's value on
    /// the first visit ever and the same cell — not a fresh one — on every
    /// later visit, so a background task's writes to it survive frames.
    /// Returns a handle sharing that cell.
    pub fn use_state<F: FnOnce() -> String>(&mut self, factory: F) -> (r: Result<
        ContextState<String>,
        HookError,
    >)
        requires
            old(self).wf(),
            factory.requires(()),
        ensures
            match r {
                Ok(cell) => {
                    &&& cell.wf()
                    &&& old(self).idx < old(self).hooks@.len() ==> old(self).hooks@[old(
                        self,
                    ).idx as int] == HookValue::Shared(cell)
                    &&& final(self).idx == old(self).idx + 1
                    &&& final(self).name == old(self).name
                    &&& final(self).wf()
                    &&& final(self).hooks@.len() == (if old(self).idx < old(self).hooks@.len() {
                        old(self).hooks@.len() as int
                    } else {
                        old(self).hooks@.len() + 1 as int
                    })
                    &&& final(self).hooks@[old(self).idx as int] == HookValue::Shared(cell)
                    &&& forall|j: int|
                        0 <= j < final(self).hooks@.len() && j != old(self).idx
                            ==> final(self).hooks@[j] == old(self).hooks@[j]
                },
                Err(e) => {
                    &&& *final(self) == *old(self)
                    &&& old(self).idx < old(self).hooks@.len()
                    &&& old(self).hooks@[old(self).idx as int].kind() != HookKind::Shared
                    &&& e.scope == old(self).name
                    &&& e.position == old(self).idx
                },
            },
    {
        let make = || -> (v: HookValue)
            ensures
                v.kind() == HookKind::Shared,
                v.wf(),
            {
                HookValue::Shared(ContextState::new(factory()))
            };
        let slot = self.use_hook(HookKind::Shared, make);
        match slot {
            Ok(slot) => match slot {
                HookValue::Shared(cell) => Ok(cell.clone()),
                _ => Err(HookError { scope: String::new(), position: 0 }),
            },
            Err(e) => Err(e),
        }
    }
}

} // verus!
