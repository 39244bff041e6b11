//! The cursor of a lane: the last ledger slot it has fully processed.
//!
//! Each cursor lives at a location of its own, so that the two lanes, and the
//! two modes a process can run in, never share one.

use vstd::prelude::*;

verus! {

/// The four places a cursor can be kept at.
#[derive(Clone, Copy, Debug, PartialEq, Eq, Structural)]
pub enum StoreLocation {
    /// The scan cursor of a process that runs the filter.
    Slot,
    /// The scan cursor of a process that runs the monitor.
    SlotTmp,
    /// The monitor cursor of a process that runs the monitor.
    MonitorSlot,
    /// The monitor cursor of a process that runs the filter.
    MonitorSlotTmp,
}

impl StoreLocation {
    /// The directory of the location, as text.
    pub open spec fn spec_path(self) -> Seq<char> {
        match self {
            StoreLocation::Slot => "./relayer/slot"@,
            StoreLocation::SlotTmp => "./relayer/slot-tmp"@,
            StoreLocation::MonitorSlot => "./relayer/monitor-slot"@,
            StoreLocation::MonitorSlotTmp => "./relayer/monitor-slot-tmp"@,
        }
    }

    /// The directory of the location.
    pub fn path(self) -> (path: &'static str)
        ensures
            path@ == self.spec_path(),
    {
        match self {
            StoreLocation::Slot => "./relayer/slot",
            StoreLocation::SlotTmp => "./relayer/slot-tmp",
            StoreLocation::MonitorSlot => "./relayer/monitor-slot",
            StoreLocation::MonitorSlotTmp => "./relayer/monitor-slot-tmp",
        }
    }

    /// Where the scan cursor of a process lives.
    pub open spec fn spec_scan(is_filter: bool) -> StoreLocation {
        if is_filter {
            StoreLocation::Slot
        } else {
            StoreLocation::SlotTmp
        }
    }

    /// Where the scan cursor of a process lives.
    #[verifier::when_used_as_spec(spec_scan)]
    pub fn scan(is_filter: bool) -> (location: StoreLocation)
        ensures
            location == StoreLocation::spec_scan(is_filter),
    {
        if is_filter {
            StoreLocation::Slot
        } else {
            StoreLocation::SlotTmp
        }
    }

    /// Where the monitor cursor of a process lives.
    pub open spec fn spec_monitor(is_filter: bool) -> StoreLocation {
        if is_filter {
            StoreLocation::MonitorSlotTmp
        } else {
            StoreLocation::MonitorSlot
        }
    }

    /// Where the monitor cursor of a process lives.
    #[verifier::when_used_as_spec(spec_monitor)]
    pub fn monitor(is_filter: bool) -> (location: StoreLocation)
        ensures
            location == StoreLocation::spec_monitor(is_filter),
    {
        if is_filter {
            StoreLocation::MonitorSlotTmp
        } else {
            StoreLocation::MonitorSlot
        }
    }
}

/// Two different locations never name the same directory.
pub proof fn lemma_paths_distinct(a: StoreLocation, b: StoreLocation)
    requires
        a != b,
    ensures
        a.spec_path() != b.spec_path(),
{
    reveal_strlit("./relayer/slot");
    reveal_strlit("./relayer/slot-tmp");
    reveal_strlit("./relayer/monitor-slot");
    reveal_strlit("./relayer/monitor-slot-tmp");
    assert("./relayer/slot"@.len() == 14);
    assert("./relayer/slot-tmp"@.len() == 18);
    assert("./relayer/monitor-slot"@.len() == 22);
    assert("./relayer/monitor-slot-tmp"@.len() == 26);
}

/// The scan cursor and the monitor cursor of a process, and the cursors of a
/// filter process and of a monitor process, all live at different places.
pub proof fn lemma_cursor_locations_distinct(is_filter: bool)
    ensures
        StoreLocation::spec_scan(is_filter) != StoreLocation::spec_monitor(is_filter),
        StoreLocation::spec_scan(true) != StoreLocation::spec_scan(false),
        StoreLocation::spec_monitor(true) != StoreLocation::spec_monitor(false),
        StoreLocation::spec_scan(true) != StoreLocation::spec_monitor(false),
        StoreLocation::spec_scan(false) != StoreLocation::spec_monitor(true),
{
}

/// What a cursor holds: where it lives and the slot written last, if any.
pub struct CursorView {
    pub location: StoreLocation,
    pub slot: Option<i64>,
}

/// The store of one lane's cursor: a single slot, absent until first written.
#[derive(Clone, Copy, Debug)]
pub struct SlotCursor {
    location: StoreLocation,
    slot: Option<i64>,
}

impl View for SlotCursor {
    type V = CursorView;

    closed spec fn view(&self) -> CursorView {
        CursorView { location: self.location, slot: self.slot }
    }
}

impl SlotCursor {
    /// A cursor at `location` that holds what the store held when opened.
    pub fn open(location: StoreLocation, stored: Option<i64>) -> (cursor: Self)
        ensures
            cursor@ == (CursorView { location, slot: stored }),
    {
        SlotCursor { location, slot: stored }
    }

    /// Where the cursor lives.
    pub fn location(&self) -> (location: StoreLocation)
        ensures
            location == self@.location,
    {
        self.location
    }

    /// The slot written last, if any was.
    pub fn show(&self) -> (slot: Option<i64>)
        ensures
            slot == self@.slot,
    {
        self.slot
    }

    /// The slot written last; 0 where none was written yet.
    pub fn read(&self) -> (slot: i64)
        ensures
            slot == match self@.slot {
                Some(s) => s,
                None => 0,
            },
    {
        match self.slot {
            Some(s) => s,
            None => 0,
        }
    }

    /// Overwrites the cursor, whatever it held.
    pub fn upsert(&mut self, slot: i64)
        ensures
            final(self)@ == (CursorView { location: old(self)@.location, slot: Some(slot) }),
    {
        self.slot = Some(slot);
    }
}

} // verus!
