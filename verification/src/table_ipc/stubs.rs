//! Non-constructable implementations of the table traits, for branches of a `Result` or a `Vec` of
//! participants that can hold no value.
use super::{Consumer, Cursor, Producer, StrongObserver, WeakObserver};
use vstd::pervasive::unreached;
use vstd::prelude::*;

verus! {

/// A producer of which there is no value.
pub struct NonConstructableProducer {
    _private: (),
}

impl NonConstructableProducer {
    #[verifier::type_invariant]
    spec fn unconstructable(self) -> bool {
        false
    }
}

impl<T> Producer<T> for NonConstructableProducer {
    fn put(&self, _data: T) {
        proof {
            use_type_invariant(self);
        }
        unreached()
    }

    fn try_put(&self, _data: T) -> Option<T> {
        proof {
            use_type_invariant(self);
        }
        unreached()
    }
}

/// A consumer of which there is no value.
pub struct NonConstructableConsumer {
    _private: (),
}

impl NonConstructableConsumer {
    #[verifier::type_invariant]
    spec fn unconstructable(self) -> bool {
        false
    }
}

impl<T> Consumer<T> for NonConstructableConsumer {
    fn take(&self) -> T {
        proof {
            use_type_invariant(self);
        }
        unreached()
    }

    fn try_take(&self) -> Option<T> {
        proof {
            use_type_invariant(self);
        }
        unreached()
    }
}

/// A strong observer of which there is no value.
pub struct NonConstructableStrongObserver {
    _private: (),
}

impl NonConstructableStrongObserver {
    #[verifier::type_invariant]
    spec fn unconstructable(self) -> bool {
        false
    }
}

impl<T> StrongObserver<T> for NonConstructableStrongObserver {
    fn strong_observe(&self) -> T {
        proof {
            use_type_invariant(self);
        }
        unreached()
    }

    fn try_strong_observe(&self) -> Option<T> {
        proof {
            use_type_invariant(self);
        }
        unreached()
    }
}

/// A weak observer of which there is no value.
pub struct NonConstructableWeakObserver {
    _private: (),
}

impl NonConstructableWeakObserver {
    #[verifier::type_invariant]
    spec fn unconstructable(self) -> bool {
        false
    }
}

impl<T> WeakObserver<T> for NonConstructableWeakObserver {
    fn weak_observe(&self, _index: Cursor) -> Option<T> {
        proof {
            use_type_invariant(self);
        }
        unreached()
    }

    fn recent_cursor(&self) -> Cursor {
        proof {
            use_type_invariant(self);
        }
        unreached()
    }

    fn oldest_cursor(&self) -> Cursor {
        proof {
            use_type_invariant(self);
        }
        unreached()
    }
}

} // verus!
