//! The state of the console logger: the most verbose level it shows, and the
//! writer that its lines go to, shared between threads.

use log::Level;
use std::sync::{Arc, Mutex};
use vstd::prelude::*;

verus! {

/// `log::Level`, held as it is.
#[verifier::external_type_specification]
#[verifier::external_body]
pub struct ExLevel(log::Level);

/// `std::sync::Mutex`, held as it is.
#[verifier::external_type_specification]
#[verifier::external_body]
#[verifier::reject_recursive_types(T)]
pub struct ExMutex<T: ?Sized>(std::sync::Mutex<T>);

/// Relies on `std::sync::Mutex::new`: a new unlocked mutex around the value.
pub assume_specification<T>[ std::sync::Mutex::<T>::new ](t: T) -> std::sync::Mutex<T>;

/// A console logger: the level up to which records are shown, and the writer
/// behind a lock. Writing lines needs `W: Write + Send + Sync`.
#[verifier::reject_recursive_types(W)]
pub struct CliLogger<W> {
    level: Level,
    writer: Arc<Mutex<W>>,
}

impl<W> CliLogger<W> {
    /// The most verbose level shown.
    pub closed spec fn spec_level(&self) -> Level {
        self.level
    }

    /// A logger showing records up to `level`, writing to `writer`.
    pub fn new(level: Level, writer: W) -> (r: Self)
        ensures
            r.spec_level() == level,
    {
        CliLogger { level, writer: Arc::new(Mutex::new(writer)) }
    }

    /// The most verbose level shown.
    pub fn level(&self) -> (r: Level)
        ensures
            r == self.spec_level(),
    {
        self.level
    }

    /// The shared writer.
    pub fn writer(&self) -> &Arc<Mutex<W>> {
        &self.writer
    }
}

} // verus!
