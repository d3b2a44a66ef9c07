//! Event kinds, interest modifiers and the masks composed from them.

use vstd::prelude::*;

verus! {

/// Kinds of filesystem events a watch can report.
#[derive(Debug, Clone, Copy, PartialEq, Eq, Structural)]
pub enum EventFlag {
    /// The file was read.
    Access,
    /// The file's contents were modified.
    Write,
    /// Metadata changed.
    Metadata,
    /// A file opened for writing was closed.
    CloseWrite,
    /// A file not opened for writing was closed.
    CloseNoWrite,
    /// The file was opened.
    Open,
    /// An entry was moved out of the watched directory.
    MoveSource,
    /// An entry was moved into the watched directory.
    MoveDestination,
    /// An entry was created in the watched directory.
    Create,
    /// An entry was deleted from the watched directory.
    Delete,
    /// The watched object itself was deleted.
    DeleteSelf,
    /// The watched object itself was moved.
    MoveSelf,
}

/// Modifiers of how a watch is established.
#[derive(Debug, Clone, Copy, PartialEq, Eq, Structural)]
pub enum InterestFlag {
    /// Only watch the path if it is a directory.
    DirOnly,
    /// Do not follow a symbolic link at the path.
    NoFollow,
    /// Stop reporting events for entries once they are unlinked.
    NoUnlink,
}

/// Bits of the kernel mask that name event kinds.
pub const ALL_EVENT_BITS: u32 = 0xfff;

/// Bits of the kernel mask that name interest modifiers.
pub const ALL_INTEREST_BITS: u32 = 0x0700_0000;

impl EventFlag {
    /// Position of this kind's bit in the kernel's event mask.
    pub open spec fn bit_index(self) -> u32 {
        match self {
            EventFlag::Access => 0,
            EventFlag::Write => 1,
            EventFlag::Metadata => 2,
            EventFlag::CloseWrite => 3,
            EventFlag::CloseNoWrite => 4,
            EventFlag::Open => 5,
            EventFlag::MoveSource => 6,
            EventFlag::MoveDestination => 7,
            EventFlag::Create => 8,
            EventFlag::Delete => 9,
            EventFlag::DeleteSelf => 10,
            EventFlag::MoveSelf => 11,
        }
    }

    /// The kernel's mask for this kind: a single bit.
    pub open spec fn spec_bits(self) -> u32 {
        1u32 << self.bit_index()
    }

    /// The kernel's mask for this kind.
    pub fn bits(self) -> (r: u32)
        ensures
            r == self.spec_bits(),
    {
        let i: u32 = match self {
            EventFlag::Access => 0,
            EventFlag::Write => 1,
            EventFlag::Metadata => 2,
            EventFlag::CloseWrite => 3,
            EventFlag::CloseNoWrite => 4,
            EventFlag::Open => 5,
            EventFlag::MoveSource => 6,
            EventFlag::MoveDestination => 7,
            EventFlag::Create => 8,
            EventFlag::Delete => 9,
            EventFlag::DeleteSelf => 10,
            EventFlag::MoveSelf => 11,
        };
        1u32 << i
    }
}

impl InterestFlag {
    /// Position of this modifier's bit in the kernel's mask.
    pub open spec fn bit_index(self) -> u32 {
        match self {
            InterestFlag::DirOnly => 24,
            InterestFlag::NoFollow => 25,
            InterestFlag::NoUnlink => 26,
        }
    }

    /// The kernel's mask for this modifier: a single bit.
    pub open spec fn spec_bits(self) -> u32 {
        1u32 << self.bit_index()
    }

    /// The kernel's mask for this modifier.
    pub fn bits(self) -> (r: u32)
        ensures
            r == self.spec_bits(),
    {
        let i: u32 = match self {
            InterestFlag::DirOnly => 24,
            InterestFlag::NoFollow => 25,
            InterestFlag::NoUnlink => 26,
        };
        1u32 << i
    }
}

/// A selection of event kinds.
#[derive(Debug, Clone, Copy, PartialEq, Eq, Structural)]
pub struct EventMask(pub(crate) u32);

/// A selection of interest modifiers.
#[derive(Debug, Clone, Copy, PartialEq, Eq, Structural)]
pub struct Interests(pub(crate) u32);

/// The full filter of a watch request: event kinds and interest modifiers.
#[derive(Debug, Clone, Copy, PartialEq, Eq, Structural)]
pub struct EventFilter(pub(crate) u32);

/// The selection of event kinds with the given bits.
pub closed spec fn mask_of(bits: u32) -> EventMask {
    EventMask(bits)
}

/// The filter with the given bits.
pub closed spec fn filter_of(bits: u32) -> EventFilter {
    EventFilter(bits)
}

/// The selection of interest modifiers with the given bits.
pub closed spec fn interests_of(bits: u32) -> Interests {
    Interests(bits)
}

/// The spec constructors hold exactly the bits they are given.
pub broadcast proof fn lemma_of_bits(bits: u32)
    ensures
        #[trigger] mask_of(bits)@ == bits,
        #[trigger] filter_of(bits)@ == bits,
        #[trigger] interests_of(bits)@ == bits,
{
}

impl View for EventMask {
    type V = u32;

    closed spec fn view(&self) -> u32 {
        self.0
    }
}

impl View for Interests {
    type V = u32;

    closed spec fn view(&self) -> u32 {
        self.0
    }
}

impl View for EventFilter {
    type V = u32;

    closed spec fn view(&self) -> u32 {
        self.0
    }
}


impl EventMask {
    /// Both move kinds: an entry moved out of or into the directory.
    pub fn moves() -> (r: EventMask)
        ensures
            r@ == EventFlag::MoveSource.spec_bits() | EventFlag::MoveDestination.spec_bits(),
    {
        EventMask(EventFlag::MoveSource.bits() | EventFlag::MoveDestination.bits())
    }

    /// Both close kinds.
    pub fn close() -> (r: EventMask)
        ensures
            r@ == EventFlag::CloseWrite.spec_bits() | EventFlag::CloseNoWrite.spec_bits(),
    {
        EventMask(EventFlag::CloseWrite.bits() | EventFlag::CloseNoWrite.bits())
    }

    /// Every event kind.
    pub fn any() -> (r: EventMask)
        ensures
            r@ == ALL_EVENT_BITS,
    {
        EventMask(ALL_EVENT_BITS)
    }

    /// The raw mask.
    pub fn bits(self) -> (r: u32)
        ensures
            r == self@,
    {
        self.0
    }

    /// Whether the two selections share an event kind.
    pub fn intersects(self, other: EventMask) -> (r: bool)
        ensures
            r == (self@ & other@ != 0),
    {
        self.0 & other.0 != 0
    }

    /// This selection with one interest modifier added.
    pub fn filter(self, filter: InterestFlag) -> (r: EventFilter)
        ensures
            r@ == self@ | filter.spec_bits(),
    {
        EventFilter(self.0 | filter.bits())
    }

    /// This selection with a set of interest modifiers added.
    pub fn with_interests(self, filter: Interests) -> (r: EventFilter)
        ensures
            r@ == self@ | filter@,
    {
        EventFilter(self.0 | filter.0)
    }
}

impl Interests {
    /// The raw mask.
    pub fn bits(self) -> (r: u32)
        ensures
            r == self@,
    {
        self.0
    }
}

impl EventFilter {
    /// This filter with one more interest modifier.
    pub fn filter(self, filter: InterestFlag) -> (r: EventFilter)
        ensures
            r@ == self@ | filter.spec_bits(),
    {
        EventFilter(self.0 | filter.bits())
    }

    /// The raw mask handed to the kernel and tested against its events.
    pub fn bits(self) -> (r: u32)
        ensures
            r == self@,
    {
        self.0
    }
}

impl From<EventMask> for EventFilter {
    fn from(mask: EventMask) -> (r: EventFilter) {
        EventFilter(mask.0)
    }
}

impl vstd::std_specs::convert::FromSpecImpl<EventMask> for EventFilter {
    open spec fn obeys_from_spec() -> bool {
        true
    }

    open spec fn from_spec(mask: EventMask) -> EventFilter {
        filter_of(mask@)
    }
}

impl From<EventFlag> for EventMask {
    fn from(flag: EventFlag) -> (r: EventMask) {
        EventMask(flag.bits())
    }
}

impl vstd::std_specs::convert::FromSpecImpl<EventFlag> for EventMask {
    open spec fn obeys_from_spec() -> bool {
        true
    }

    open spec fn from_spec(flag: EventFlag) -> EventMask {
        mask_of(flag.spec_bits())
    }
}

impl core::ops::BitOr<EventFlag> for EventFlag {
    type Output = EventMask;

    fn bitor(self, rhs: EventFlag) -> (r: EventMask) {
        EventMask(self.bits() | rhs.bits())
    }
}

impl vstd::std_specs::ops::BitOrSpecImpl<EventFlag> for EventFlag {
    open spec fn obeys_bitor_spec() -> bool {
        true
    }

    open spec fn bitor_req(self, rhs: EventFlag) -> bool {
        true
    }

    open spec fn bitor_spec(self, rhs: EventFlag) -> EventMask {
        mask_of(self.spec_bits() | rhs.spec_bits())
    }
}

impl core::ops::BitOr<EventFlag> for EventMask {
    type Output = EventMask;

    fn bitor(self, rhs: EventFlag) -> (r: EventMask) {
        EventMask(self.0 | rhs.bits())
    }
}

impl vstd::std_specs::ops::BitOrSpecImpl<EventFlag> for EventMask {
    open spec fn obeys_bitor_spec() -> bool {
        true
    }

    open spec fn bitor_req(self, rhs: EventFlag) -> bool {
        true
    }

    open spec fn bitor_spec(self, rhs: EventFlag) -> EventMask {
        mask_of(self@ | rhs.spec_bits())
    }
}

impl core::ops::BitOr<EventMask> for EventMask {
    type Output = EventMask;

    fn bitor(self, rhs: EventMask) -> (r: EventMask) {
        EventMask(self.0 | rhs.0)
    }
}

impl vstd::std_specs::ops::BitOrSpecImpl<EventMask> for EventMask {
    open spec fn obeys_bitor_spec() -> bool {
        true
    }

    open spec fn bitor_req(self, rhs: EventMask) -> bool {
        true
    }

    open spec fn bitor_spec(self, rhs: EventMask) -> EventMask {
        mask_of(self@ | rhs@)
    }
}

impl core::ops::BitOr<InterestFlag> for InterestFlag {
    type Output = Interests;

    fn bitor(self, rhs: InterestFlag) -> (r: Interests) {
        Interests(self.bits() | rhs.bits())
    }
}

impl vstd::std_specs::ops::BitOrSpecImpl<InterestFlag> for InterestFlag {
    open spec fn obeys_bitor_spec() -> bool {
        true
    }

    open spec fn bitor_req(self, rhs: InterestFlag) -> bool {
        true
    }

    open spec fn bitor_spec(self, rhs: InterestFlag) -> Interests {
        interests_of(self.spec_bits() | rhs.spec_bits())
    }
}

impl core::ops::BitOr<InterestFlag> for Interests {
    type Output = Interests;

    fn bitor(self, rhs: InterestFlag) -> (r: Interests) {
        Interests(self.0 | rhs.bits())
    }
}

impl vstd::std_specs::ops::BitOrSpecImpl<InterestFlag> for Interests {
    open spec fn obeys_bitor_spec() -> bool {
        true
    }

    open spec fn bitor_req(self, rhs: InterestFlag) -> bool {
        true
    }

    open spec fn bitor_spec(self, rhs: InterestFlag) -> Interests {
        interests_of(self@ | rhs.spec_bits())
    }
}

impl core::ops::BitOr<Interests> for Interests {
    type Output = Interests;

    fn bitor(self, rhs: Interests) -> (r: Interests) {
        Interests(self.0 | rhs.0)
    }
}

impl vstd::std_specs::ops::BitOrSpecImpl<Interests> for Interests {
    open spec fn obeys_bitor_spec() -> bool {
        true
    }

    open spec fn bitor_req(self, rhs: Interests) -> bool {
        true
    }

    open spec fn bitor_spec(self, rhs: Interests) -> Interests {
        interests_of(self@ | rhs@)
    }
}

impl core::ops::BitAnd<EventFlag> for EventFlag {
    type Output = EventMask;

    fn bitand(self, rhs: EventFlag) -> (r: EventMask) {
        EventMask(self.bits() & rhs.bits())
    }
}

impl vstd::std_specs::ops::BitAndSpecImpl<EventFlag> for EventFlag {
    open spec fn obeys_bitand_spec() -> bool {
        true
    }

    open spec fn bitand_req(self, rhs: EventFlag) -> bool {
        true
    }

    open spec fn bitand_spec(self, rhs: EventFlag) -> EventMask {
        mask_of(self.spec_bits() & rhs.spec_bits())
    }
}

impl core::ops::BitAnd<EventFlag> for EventMask {
    type Output = EventMask;

    fn bitand(self, rhs: EventFlag) -> (r: EventMask) {
        EventMask(self.0 & rhs.bits())
    }
}

impl vstd::std_specs::ops::BitAndSpecImpl<EventFlag> for EventMask {
    open spec fn obeys_bitand_spec() -> bool {
        true
    }

    open spec fn bitand_req(self, rhs: EventFlag) -> bool {
        true
    }

    open spec fn bitand_spec(self, rhs: EventFlag) -> EventMask {
        mask_of(self@ & rhs.spec_bits())
    }
}

impl core::ops::BitAnd<EventMask> for EventMask {
    type Output = EventMask;

    fn bitand(self, rhs: EventMask) -> (r: EventMask) {
        EventMask(self.0 & rhs.0)
    }
}

impl vstd::std_specs::ops::BitAndSpecImpl<EventMask> for EventMask {
    open spec fn obeys_bitand_spec() -> bool {
        true
    }

    open spec fn bitand_req(self, rhs: EventMask) -> bool {
        true
    }

    open spec fn bitand_spec(self, rhs: EventMask) -> EventMask {
        mask_of(self@ & rhs@)
    }
}

impl core::ops::BitAnd<InterestFlag> for InterestFlag {
    type Output = Interests;

    fn bitand(self, rhs: InterestFlag) -> (r: Interests) {
        Interests(self.bits() & rhs.bits())
    }
}

impl vstd::std_specs::ops::BitAndSpecImpl<InterestFlag> for InterestFlag {
    open spec fn obeys_bitand_spec() -> bool {
        true
    }

    open spec fn bitand_req(self, rhs: InterestFlag) -> bool {
        true
    }

    open spec fn bitand_spec(self, rhs: InterestFlag) -> Interests {
        interests_of(self.spec_bits() & rhs.spec_bits())
    }
}

impl core::ops::BitAnd<InterestFlag> for Interests {
    type Output = Interests;

    fn bitand(self, rhs: InterestFlag) -> (r: Interests) {
        Interests(self.0 & rhs.bits())
    }
}

impl vstd::std_specs::ops::BitAndSpecImpl<InterestFlag> for Interests {
    open spec fn obeys_bitand_spec() -> bool {
        true
    }

    open spec fn bitand_req(self, rhs: InterestFlag) -> bool {
        true
    }

    open spec fn bitand_spec(self, rhs: InterestFlag) -> Interests {
        interests_of(self@ & rhs.spec_bits())
    }
}

impl core::ops::BitAnd<Interests> for Interests {
    type Output = Interests;

    fn bitand(self, rhs: Interests) -> (r: Interests) {
        Interests(self.0 & rhs.0)
    }
}

impl vstd::std_specs::ops::BitAndSpecImpl<Interests> for Interests {
    open spec fn obeys_bitand_spec() -> bool {
        true
    }

    open spec fn bitand_req(self, rhs: Interests) -> bool {
        true
    }

    open spec fn bitand_spec(self, rhs: Interests) -> Interests {
        interests_of(self@ & rhs@)
    }
}

impl From<InterestFlag> for Interests {
    fn from(flag: InterestFlag) -> (r: Interests) {
        Interests(flag.bits())
    }
}

impl vstd::std_specs::convert::FromSpecImpl<InterestFlag> for Interests {
    open spec fn obeys_from_spec() -> bool {
        true
    }

    open spec fn from_spec(flag: InterestFlag) -> Interests {
        interests_of(flag.spec_bits())
    }
}

/// The mask composed from a sequence of event kinds with `|`.
pub open spec fn union_of(flags: Seq<EventFlag>) -> u32
    decreases flags.len(),
{
    if flags.len() == 0 {
        0
    } else {
        union_of(flags.drop_last()) | flags.last().spec_bits()
    }
}

proof fn lemma_single_bits(i: u32, j: u32)
    by (bit_vector)
    requires
        i < 32,
        j < 32,
    ensures
        ((1u32 << i) & (1u32 << j) != 0) == (i == j),
{
}

proof fn lemma_or_and(a: u32, b: u32, c: u32)
    by (bit_vector)
    ensures
        ((a | b) & c != 0) == ((a & c != 0) || (b & c != 0)),
        (0u32 & c) == 0,
{
}

/// Two event kinds share a bit exactly when they are the same kind.
pub proof fn lemma_flags_disjoint(f: EventFlag, g: EventFlag)
    ensures
        (f.spec_bits() & g.spec_bits() != 0) == (f == g),
{
    lemma_single_bits(f.bit_index(), g.bit_index());
}

/// A mask composed from several event kinds intersects each of them, and
/// no kind outside the composition.
pub proof fn lemma_union_intersects(flags: Seq<EventFlag>, g: EventFlag)
    ensures
        (union_of(flags) & g.spec_bits() != 0) == flags.contains(g),
    decreases flags.len(),
{
    if flags.len() == 0 {
        lemma_or_and(0, 0, g.spec_bits());
    } else {
        let init = flags.drop_last();
        lemma_union_intersects(init, g);
        lemma_or_and(union_of(init), flags.last().spec_bits(), g.spec_bits());
        lemma_flags_disjoint(flags.last(), g);
        assert(flags == init.push(flags.last()));
        if init.contains(g) {
            let k = choose|k: int| 0 <= k < init.len() && init[k] == g;
            assert(flags[k] == g);
        }
        if flags.contains(g) && flags.last() != g {
            let k = choose|k: int| 0 <= k < flags.len() && flags[k] == g;
            assert(k < flags.len() - 1);
            assert(init[k] == g);
        }
    }
}

} // verus!
