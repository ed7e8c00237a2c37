use vstd::prelude::*;
use crate::error::Error;
use crate::switch::Selection;

verus! {

/// The table of discovered chips as contracts see it.
pub struct CacheState {
    /// The chip id on each channel; 0 where none was found.
    pub ids: Seq<u16>,
    /// Whether a scan has filled the table.
    pub populated: bool,
}

impl CacheState {
    /// The table after a scan hands in `ids`: the first scan fills it, and
    /// nothing changes it afterwards.
    pub open spec fn populated_with(self, ids: Seq<u16>) -> CacheState {
        if self.populated {
            self
        } else {
            CacheState { ids, populated: true }
        }
    }

    /// Whether a scan must run before the table can answer.
    pub open spec fn needs_scan(self) -> bool {
        !self.populated
    }

    /// Whether `channel` is the first channel that holds chip `id`.
    pub open spec fn first_holder(self, id: u16, channel: int) -> bool {
        &&& 0 <= channel < self.ids.len()
        &&& channel <= 255
        &&& self.ids[channel] == id
        &&& forall|j: int| 0 <= j < channel ==> self.ids[j] != id
    }

    /// Whether no channel holds chip `id`.
    pub open spec fn lacks(self, id: u16) -> bool {
        forall|j: int| 0 <= j < self.ids.len() && j <= 255 ==> self.ids[j] != id
    }
}

/// What is to be done to connect a chip.
#[derive(Clone, Copy, Debug, PartialEq, Eq, Structural)]
pub enum Resolution {
    /// The table is empty: run a scan, hand in its result, and ask again.
    Discover,
    /// Apply this selection: the chip's channel, powered off.
    Connect(Selection),
    /// No channel holds the chip.
    Fail(Error),
}

/// Which chip sits on which channel. Filled by the first scan and never
/// changed afterwards.
pub struct TopologyCache {
    ids: Vec<u16>,
    populated: bool,
}

impl View for TopologyCache {
    type V = CacheState;

    closed spec fn view(&self) -> CacheState {
        CacheState { ids: self.ids@, populated: self.populated }
    }
}

impl TopologyCache {
    /// An empty table that no scan has filled.
    pub fn new() -> (cache: TopologyCache)
        ensures
            cache@ == (CacheState { ids: Seq::empty(), populated: false }),
    {
        TopologyCache { ids: Vec::new(), populated: false }
    }

    pub fn is_populated(&self) -> (populated: bool)
        ensures
            populated == self@.populated,
    {
        self.populated
    }

    /// The chip id on each channel.
    pub fn ids(&self) -> (ids: &Vec<u16>)
        ensures
            ids@ == self@.ids,
    {
        &self.ids
    }

    /// Hands in the result of a scan. Only the first one counts.
    pub fn populate(&mut self, ids: Vec<u16>)
        ensures
            final(self)@ == old(self)@.populated_with(ids@),
    {
        if !self.populated {
            self.ids = ids;
            self.populated = true;
        }
    }

    /// The first channel that holds chip `id`.
    pub fn find(&self, id: u16) -> (found: Option<u8>)
        ensures
            found matches Some(channel) ==> self@.first_holder(id, channel as int),
            found is None <==> self@.lacks(id),
    {
        let mut channel: u8 = 0;
        loop
            invariant
                forall|j: int| 0 <= j < channel ==> self.ids@[j] != id,
                channel <= self.ids@.len(),
            decreases 256 - channel,
        {
            if channel as usize >= self.ids.len() {
                return None;
            }
            if self.ids[channel as usize] == id {
                assert(self@.ids[channel as int] == id);
                return Some(channel);
            }
            if channel == 255 {
                return None;
            }
            channel = channel + 1;
        }
    }
}

/// The first scan to hand in its result fills the table, and no later one
/// changes it: once a scan has run, no lookup asks for another.
pub proof fn lemma_scan_runs_once(cache: CacheState, first: Seq<u16>, second: Seq<u16>)
    ensures
        !cache.populated_with(first).needs_scan(),
        cache.populated_with(first).populated_with(second) == cache.populated_with(first),
        cache.needs_scan() ==> cache.populated_with(first).ids == first,
{
}

/// At most one channel is the first holder of a chip, and there is one
/// exactly when the table does not lack the chip.
pub proof fn lemma_first_holder_is_unique(cache: CacheState, id: u16, a: int, b: int)
    requires
        cache.first_holder(id, a),
        cache.first_holder(id, b),
    ensures
        a == b,
        !cache.lacks(id),
{
}

} // verus!
