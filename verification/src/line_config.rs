//! Line configuration: the settings that each offset of a chip is to get.

use vstd::prelude::*;
use crate::entries::{
    assigned, entry_offsets, lemma_assigned_nothing, lemma_assigned_one_more,
    lemma_settings_of_entry, lemma_with_new_offsets, no_entries, settings_of, well_formed,
};
use crate::error::{Error, OperationType};
use crate::line::{Offset, Settings};

verus! {

/// The place of the entry of `offset` in `entries`, if there is one.
fn position(entries: &Vec<(Offset, Settings)>, offset: Offset) -> (r: Option<usize>)
    ensures
        match r {
            Some(i) => i < entries@.len() && entries@[i as int].0 == offset,
            None => forall|j: int| 0 <= j < entries@.len() ==> entries@[j].0 != offset,
        },
{
    let mut i: usize = 0;
    while i < entries.len()
        invariant
            i <= entries@.len(),
            forall|j: int| 0 <= j < i ==> entries@[j].0 != offset,
        decreases entries@.len() - i,
    {
        if entries[i].0 == offset {
            return Some(i);
        }
        i += 1;
    }
    None
}

/// Line configuration objects.
///
/// The line-config object contains the configuration for lines that can be
/// used in two cases:
///  - when making a line request
///  - when reconfiguring a set of already requested lines.
///
/// A new line-config object is empty. In order for a line-config to become
/// useful, it needs to be assigned at least one offset-to-settings mapping by
/// calling [`Config::add_line_settings`].
///
/// The view of a `Config` is the sequence of its entries, an offset and its
/// settings each, in the order in which the offsets were first assigned. No
/// offset has two entries.
///
/// The object keeps its entries in memory of its own. Creating it, assigning
/// to it and listing its offsets therefore always succeed; the only failure
/// is to ask for the settings of an offset that has none.
#[derive(Debug, PartialEq, Eq)]
pub struct Config {
    entries: Vec<(Offset, Settings)>,
}

impl View for Config {
    type V = Seq<(Offset, Settings)>;

    closed spec fn view(&self) -> Self::V {
        self.entries@
    }
}

impl Config {
    #[verifier::type_invariant]
    spec fn entries_are_well_formed(&self) -> bool {
        well_formed(self.entries@)
    }

    /// Create a new line config object. It has no entries.
    ///
    /// This always succeeds.
    pub fn new() -> (r: Result<Config, Error>)
        ensures
            r matches Ok(config) && config@ == no_entries(),
    {
        Ok(Config { entries: Vec::new() })
    }

    /// Resets the entire configuration stored in the object. This is useful if
    /// the user wants to reuse the object without reallocating it.
    pub fn reset(&mut self)
        ensures
            final(self)@ == no_entries(),
    {
        self.entries = Vec::new();
    }

    /// Add line settings for a set of offsets.
    ///
    /// An offset that has settings already gets the new ones and keeps its
    /// place; a new offset is appended. `offsets` may be empty, and may name
    /// an offset more than once. The settings are copied: changing `settings`
    /// afterwards does not change the configuration.
    ///
    /// This always succeeds.
    pub fn add_line_settings(&mut self, offsets: &[Offset], settings: Settings) -> (r: Result<
        (),
        Error,
    >)
        ensures
            r is Ok,
            well_formed(old(self)@),
            well_formed(final(self)@),
            final(self)@ == assigned(old(self)@, offsets@, settings),
    {
        let ghost before = self@;
        proof {
            use_type_invariant(&*self);
            lemma_assigned_nothing(before, settings);
        }
        let mut entries: Vec<(Offset, Settings)> = Vec::new();
        core::mem::swap(&mut self.entries, &mut entries);
        let mut k: usize = 0;
        while k < offsets.len()
            invariant
                k <= offsets@.len(),
                well_formed(before),
                entries@ == assigned(before, offsets@.take(k as int), settings),
            decreases offsets@.len() - k,
        {
            let offset = offsets[k];
            proof {
                lemma_assigned_one_more(before, offsets@.take(k as int), offset, settings);
                assert(offsets@.take(k + 1) =~= offsets@.take(k as int).push(offset));
            }
            match position(&entries, offset) {
                Some(i) => {
                    entries.set(i, (offset, settings));
                },
                None => {
                    entries.push((offset, settings));
                },
            }
            k += 1;
        }
        proof {
            assert(offsets@.take(k as int) =~= offsets@);
            lemma_with_new_offsets(entry_offsets(before), offsets@);
        }
        self.entries = entries;
        Ok(())
    }

    /// Get line settings for offset: a copy of what was last assigned to it.
    ///
    /// An offset without settings is reported as the failure of
    /// [`OperationType::LineConfigGetSettings`], with the OS error code that
    /// the calling thread holds at that moment.
    pub fn line_settings(&self, offset: Offset) -> (r: Result<Settings, Error>)
        ensures
            well_formed(self@),
            match settings_of(self@, offset) {
                Some(settings) => r == Ok::<Settings, Error>(settings),
                None => r matches Err(Error::OperationFailed(op, _)) && op
                    == OperationType::LineConfigGetSettings,
            },
    {
        proof {
            use_type_invariant(self);
        }
        match position(&self.entries, offset) {
            Some(i) => {
                proof {
                    lemma_settings_of_entry(self@, i as int);
                }
                Ok(self.entries[i].1)
            },
            None => Err(Error::last_os_error(OperationType::LineConfigGetSettings)),
        }
    }

    /// Get configured offsets: each once, in the order in which they were
    /// first assigned.
    ///
    /// This always succeeds, also where there are no offsets.
    pub fn offsets(&self) -> (r: Result<Vec<Offset>, Error>)
        ensures
            well_formed(self@),
            r matches Ok(offsets) && offsets@ == entry_offsets(self@),
    {
        proof {
            use_type_invariant(self);
        }
        let mut offsets: Vec<Offset> = Vec::new();
        let mut i: usize = 0;
        while i < self.entries.len()
            invariant
                i <= self.entries@.len(),
                offsets@.len() == i,
                forall|j: int| 0 <= j < i ==> offsets@[j] == self.entries@[j].0,
            decreases self.entries@.len() - i,
        {
            offsets.push(self.entries[i].0);
            i += 1;
        }
        proof {
            assert(offsets@ =~= entry_offsets(self.entries@));
        }
        Ok(offsets)
    }
}

} // verus!
