//! Reference counting on object headers.
//!
//! One word holds two counts: the strong count in its low half and the weak
//! count in its high half. All strong references together own one weak one.

use vstd::prelude::*;

verus! {

pub const COMBINED_REF_COUNT_STRONG_ONE: u64 = 1;

pub const COMBINED_REF_COUNT_WEAK_ONE: u64 = 0x1_0000_0000;

pub const COMBINED_REF_COUNT_BOTH_ONE: u64 = 0x1_0000_0001;

pub const COMBINED_REF_COUNT_MASK_U32: u64 = 0xffff_ffff;

/// The deleter destroys the payload.
pub const DELETER_FLAG_STRONG: i32 = 1;

/// The deleter releases the memory.
pub const DELETER_FLAG_WEAK: i32 = 2;

pub const DELETER_FLAG_BOTH: i32 = 3;

/// The deleter that an allocation was made with.
#[derive(Clone, Copy, PartialEq, Eq, Structural, Debug)]
pub enum ObjectDeleter {
    New,
    NewWithExtraItems,
}

/// The header at the start of every object.
#[derive(Clone, Copy, PartialEq, Eq, Structural, Debug)]
pub struct TVMFFIObject {
    pub combined_ref_count: u64,
    pub type_index: i32,
    pub deleter: Option<ObjectDeleter>,
}

/// The strong count of a combined count.
pub open spec fn strong(count: u64) -> int {
    count as int % 0x1_0000_0000
}

/// The weak count of a combined count.
pub open spec fn weak(count: u64) -> int {
    count as int / 0x1_0000_0000
}

/// Both counts are those of an object to which a strong reference exists.
pub open spec fn owned(count: u64) -> bool {
    strong(count) >= 1 && weak(count) >= 1
}

/// The combined count of a strong and a weak count.
pub open spec fn combined(strong: int, weak: int) -> u64 {
    (weak * 0x1_0000_0000 + strong) as u64
}

/// The count after one strong reference is released.
///
/// The last strong reference also releases the weak one that all strong
/// references own, unless the whole object goes at once.
pub open spec fn released(count: u64) -> u64 {
    if strong(count) == 1 && weak(count) > 1 {
        combined(0, weak(count) - 1)
    } else {
        combined(strong(count) - 1, weak(count))
    }
}

/// The deleter calls that the release of one strong reference makes.
pub open spec fn deleter_calls(count: u64) -> Seq<i32> {
    if strong(count) > 1 {
        Seq::empty()
    } else if weak(count) == 1 {
        seq![DELETER_FLAG_BOTH]
    } else {
        seq![DELETER_FLAG_STRONG]
    }
}

proof fn lemma_halves(count: u64)
    ensures
        count & COMBINED_REF_COUNT_MASK_U32 == strong(count),
        count >> 32 == weak(count),
        count == combined(strong(count), weak(count)),
        0 <= strong(count) <= u32::MAX,
        0 <= weak(count) <= u32::MAX,
{
    assert(count & 0xffff_ffff == count % 0x1_0000_0000) by (bit_vector);
    assert(count >> 32 == count / 0x1_0000_0000) by (bit_vector);
}

/// Taking one more reference keeps an object owned.
pub(crate) proof fn lemma_counts(count: u64)
    requires
        owned(count),
        strong(count) < u32::MAX,
    ensures
        owned(combined(strong(count) + 1, weak(count))),
        strong(combined(strong(count) + 1, weak(count))) == strong(count) + 1,
        weak(combined(strong(count) + 1, weak(count))) == weak(count),
{
    lemma_halves(count);
    lemma_combined(strong(count) + 1, weak(count));
}

/// Takes one more strong reference.
pub fn inc_ref(header: &mut TVMFFIObject)
    requires
        strong(old(header).combined_ref_count) < u32::MAX,
    ensures
        *final(header) == (TVMFFIObject {
            combined_ref_count: combined(
                strong(old(header).combined_ref_count) + 1,
                weak(old(header).combined_ref_count),
            ),
            ..*old(header)
        }),
{
    proof {
        lemma_halves(header.combined_ref_count);
    }
    header.combined_ref_count = header.combined_ref_count + COMBINED_REF_COUNT_STRONG_ONE;
}

/// Releases one strong reference.
///
/// Returns the flags of the deleter calls to make, in order.
pub fn dec_ref(header: &mut TVMFFIObject) -> (calls: Vec<i32>)
    requires
        owned(old(header).combined_ref_count),
    ensures
        *final(header) == (TVMFFIObject {
            combined_ref_count: released(old(header).combined_ref_count),
            ..*old(header)
        }),
        calls@ == (if old(header).deleter is None {
            Seq::<i32>::empty()
        } else {
            deleter_calls(old(header).combined_ref_count)
        }),
{
    let mut calls: Vec<i32> = Vec::new();
    let old_combined_count: u64 = header.combined_ref_count;
    proof {
        lemma_halves(old_combined_count);
    }
    header.combined_ref_count = old_combined_count - COMBINED_REF_COUNT_STRONG_ONE;
    if old_combined_count == COMBINED_REF_COUNT_BOTH_ONE {
        if header.deleter.is_some() {
            calls.push(DELETER_FLAG_BOTH);
        }
    } else if old_combined_count & COMBINED_REF_COUNT_MASK_U32 == COMBINED_REF_COUNT_STRONG_ONE {
        // A weak reference is left: the payload goes first, the memory later.
        if header.deleter.is_some() {
            calls.push(DELETER_FLAG_STRONG);
        }
        let old_weak_count: u64 = header.combined_ref_count;
        header.combined_ref_count = old_weak_count - COMBINED_REF_COUNT_WEAK_ONE;
        if old_weak_count == COMBINED_REF_COUNT_WEAK_ONE {
            if header.deleter.is_some() {
                calls.push(DELETER_FLAG_WEAK);
            }
        }
    }
    calls
}

pub fn strong_count(header: &TVMFFIObject) -> (count: usize)
    ensures
        count == strong(header.combined_ref_count),
{
    proof {
        lemma_halves(header.combined_ref_count);
    }
    (header.combined_ref_count & COMBINED_REF_COUNT_MASK_U32) as usize
}

pub fn weak_count(header: &TVMFFIObject) -> (count: usize)
    ensures
        count == weak(header.combined_ref_count),
{
    proof {
        lemma_halves(header.combined_ref_count);
    }
    (header.combined_ref_count >> 32) as usize
}

//-----------------------------------------------------
// Laws of the counts
//-----------------------------------------------------
/// Releasing a reference that was just taken restores the count, and deletes
/// nothing.
pub proof fn law_release_undoes_acquire(count: u64)
    requires
        owned(count),
        strong(count) < u32::MAX,
    ensures
        released(combined(strong(count) + 1, weak(count))) == count,
        deleter_calls(combined(strong(count) + 1, weak(count))) == Seq::<i32>::empty(),
{
    lemma_halves(count);
}

/// The count after `n` strong references are released in turn.
pub open spec fn released_times(count: u64, n: nat) -> u64
    decreases n,
{
    if n == 0 {
        count
    } else {
        released(released_times(count, (n - 1) as nat))
    }
}

/// Of all the releases of the strong references to an object, only the last
/// calls the deleter.
pub proof fn law_only_last_release_deletes(count: u64, n: nat)
    requires
        owned(count),
        n < strong(count),
    ensures
        released_times(count, n) == combined(strong(count) - n, weak(count)),
        deleter_calls(released_times(count, n)) == Seq::<i32>::empty() <==> n + 1 < strong(count),
    decreases n,
{
    lemma_halves(count);
    if n > 0 {
        law_only_last_release_deletes(count, (n - 1) as nat);
    }
    lemma_combined(strong(count) - n, weak(count));
    assert(seq![DELETER_FLAG_BOTH].len() == 1);
    assert(seq![DELETER_FLAG_STRONG].len() == 1);
}

proof fn lemma_combined(s: int, w: int)
    requires
        0 <= s <= u32::MAX,
        0 <= w <= u32::MAX,
    ensures
        strong(combined(s, w)) == s,
        weak(combined(s, w)) == w,
{
    let count = w * 0x1_0000_0000 + s;
    assert(count <= u64::MAX);
    assert(count % 0x1_0000_0000 == s && count / 0x1_0000_0000 == w) by (nonlinear_arith)
        requires
            count == w * 0x1_0000_0000 + s,
            0 <= s < 0x1_0000_0000,
    ;
}

//-----------------------------------------------------
// Interleavings
//-----------------------------------------------------
/// An object while references to it are taken and released in any order.
///
/// The release of the last strong reference is not atomic: between its two
/// steps, other references may come and go.
pub struct ObjectLife {
    pub count: u64,
    /// Strong references that exist.
    pub strong_refs: nat,
    /// Weak references that exist, besides the one that strong references own.
    pub weak_refs: nat,
    /// A release has taken the last strong reference and not yet given up the
    /// weak one.
    pub releasing: bool,
    /// How often the payload was destroyed.
    pub payload_deletions: nat,
    /// How often the memory was released.
    pub memory_releases: nat,
}

pub enum RefEvent {
    /// A strong reference is copied.
    Clone,
    /// A release subtracts one from the strong count.
    DropStrong,
    /// A release that took the last strong reference gives up the weak one.
    FinishDrop,
    /// A weak reference is made from a strong one.
    Downgrade,
    /// A weak reference is released.
    DropWeak,
}

impl ObjectLife {
    pub open spec fn new() -> ObjectLife {
        ObjectLife {
            count: COMBINED_REF_COUNT_BOTH_ONE,
            strong_refs: 1,
            weak_refs: 0,
            releasing: false,
            payload_deletions: 0,
            memory_releases: 0,
        }
    }

    /// The event can happen here.
    pub open spec fn enabled(self, event: RefEvent) -> bool {
        match event {
            RefEvent::Clone => 1 <= self.strong_refs < u32::MAX,
            RefEvent::DropStrong => self.strong_refs >= 1,
            RefEvent::FinishDrop => self.releasing,
            RefEvent::Downgrade => self.strong_refs >= 1 && self.weak_refs + 1 < u32::MAX,
            RefEvent::DropWeak => self.weak_refs >= 1,
        }
    }

    /// What the event does.
    pub open spec fn next(self, event: RefEvent) -> ObjectLife {
        let memory_releases = if self.count == COMBINED_REF_COUNT_WEAK_ONE {
            self.memory_releases + 1
        } else {
            self.memory_releases
        };
        match event {
            RefEvent::Clone => ObjectLife {
                count: (self.count + COMBINED_REF_COUNT_STRONG_ONE) as u64,
                strong_refs: self.strong_refs + 1,
                ..self
            },
            RefEvent::DropStrong => {
                let after = ObjectLife {
                    count: (self.count - COMBINED_REF_COUNT_STRONG_ONE) as u64,
                    strong_refs: (self.strong_refs - 1) as nat,
                    ..self
                };
                if self.count == COMBINED_REF_COUNT_BOTH_ONE {
                    ObjectLife {
                        count: 0,
                        payload_deletions: self.payload_deletions + 1,
                        memory_releases: self.memory_releases + 1,
                        ..after
                    }
                } else if strong(self.count) == 1 {
                    ObjectLife {
                        releasing: true,
                        payload_deletions: self.payload_deletions + 1,
                        ..after
                    }
                } else {
                    after
                }
            },
            RefEvent::FinishDrop => ObjectLife {
                count: (self.count - COMBINED_REF_COUNT_WEAK_ONE) as u64,
                releasing: false,
                memory_releases,
                ..self
            },
            RefEvent::Downgrade => ObjectLife {
                count: (self.count + COMBINED_REF_COUNT_WEAK_ONE) as u64,
                weak_refs: self.weak_refs + 1,
                ..self
            },
            RefEvent::DropWeak => ObjectLife {
                count: (self.count - COMBINED_REF_COUNT_WEAK_ONE) as u64,
                weak_refs: (self.weak_refs - 1) as nat,
                memory_releases,
                ..self
            },
        }
    }

    /// The state after a run of events.
    pub open spec fn after(self, events: Seq<RefEvent>) -> ObjectLife
        decreases events.len(),
    {
        if events.len() == 0 {
            self
        } else {
            self.after(events.drop_last()).next(events.last())
        }
    }

    /// Every event of the run can happen where it does.
    pub open spec fn possible(self, events: Seq<RefEvent>) -> bool
        decreases events.len(),
    {
        events.len() > 0 ==> {
            &&& self.possible(events.drop_last())
            &&& self.after(events.drop_last()).enabled(events.last())
        }
    }

    /// The payload exists as long as a strong reference does, and the memory as
    /// long as any reference does; neither goes twice.
    pub open spec fn sound(self) -> bool {
        let owner: int = if self.strong_refs >= 1 || self.releasing {
            1
        } else {
            0
        };
        &&& self.strong_refs <= u32::MAX
        &&& self.weak_refs < u32::MAX
        &&& self.releasing ==> self.strong_refs == 0
        &&& strong(self.count) == self.strong_refs
        &&& weak(self.count) == self.weak_refs + owner
        &&& self.payload_deletions == (if self.strong_refs >= 1 {
            0int
        } else {
            1int
        })
        &&& self.memory_releases == (if self.weak_refs + owner >= 1 {
            0int
        } else {
            1int
        })
    }
}

proof fn lemma_sound_next(life: ObjectLife, event: RefEvent)
    requires
        life.sound(),
        life.enabled(event),
    ensures
        life.next(event).sound(),
{
    lemma_halves(life.count);
    let owner: int = if life.strong_refs >= 1 || life.releasing {
        1
    } else {
        0
    };
    let (s, w) = (strong(life.count), weak(life.count));
    match event {
        RefEvent::Clone => lemma_combined(s + 1, w),
        RefEvent::DropStrong => {
            lemma_combined(s - 1, w);
            lemma_combined(0, 0);
        },
        RefEvent::FinishDrop => lemma_combined(s, w - 1),
        RefEvent::Downgrade => lemma_combined(s, w + 1),
        RefEvent::DropWeak => lemma_combined(s, w - 1),
    }
}

/// However references to an object are taken and released, the payload is
/// destroyed exactly once, when the last strong reference goes, and the memory
/// is released exactly once, when the last reference of either kind goes.
pub proof fn law_deleted_exactly_once(events: Seq<RefEvent>)
    requires
        ObjectLife::new().possible(events),
    ensures
        ObjectLife::new().after(events).sound(),
    decreases events.len(),
{
    lemma_combined(1, 1);
    if events.len() > 0 {
        law_deleted_exactly_once(events.drop_last());
        lemma_sound_next(ObjectLife::new().after(events.drop_last()), events.last());
    }
}

/// With no other reference involved, the steps of a release amount to
/// [`released`] and [`deleter_calls`].
pub proof fn law_uninterrupted_release(life: ObjectLife)
    requires
        life.sound(),
        life.strong_refs >= 1,
    ensures
        ({
            let dropped = life.next(RefEvent::DropStrong);
            let done = if dropped.releasing {
                dropped.next(RefEvent::FinishDrop)
            } else {
                dropped
            };
            let calls = deleter_calls(life.count);
            &&& calls != seq![DELETER_FLAG_BOTH] ==> done.count == released(life.count)
            &&& done.payload_deletions == life.payload_deletions + calls.len()
            &&& done.memory_releases == life.memory_releases + (if calls == seq![
                DELETER_FLAG_BOTH,
            ] {
                1int
            } else {
                0int
            })
        }),
{
    lemma_halves(life.count);
    let (s, w) = (strong(life.count), weak(life.count));
    lemma_combined(s - 1, w);
    if w > 1 {
        lemma_combined(0, w - 1);
        lemma_combined(0, w);
    }
    assert(seq![DELETER_FLAG_BOTH][0] == DELETER_FLAG_BOTH);
    assert(seq![DELETER_FLAG_STRONG][0] == DELETER_FLAG_STRONG);
    assert(seq![DELETER_FLAG_BOTH].len() == 1);
}

/// A release takes one from the strong count. It destroys the payload exactly if that
/// was the last strong reference, and takes the memory along exactly if no weak
/// reference is left besides the one that strong references own.
pub proof fn law_release_counts_down(count: u64)
    requires
        owned(count),
    ensures
        strong(released(count)) == strong(count) - 1,
        strong(count) > 1 ==> weak(released(count)) == weak(count),
        strong(count) == 1 && weak(count) > 1 ==> weak(released(count)) == weak(count) - 1,
        strong(count) > 1 <==> deleter_calls(count).len() == 0,
        strong(count) == 1 ==> deleter_calls(count).len() == 1 && deleter_calls(count)[0] == (
        if weak(count) == 1 {
            DELETER_FLAG_BOTH
        } else {
            DELETER_FLAG_STRONG
        }),
{
    lemma_halves(count);
    lemma_combined(strong(count) - 1, weak(count));
    if weak(count) > 1 {
        lemma_combined(0, weak(count) - 1);
    }
}

/// Two counts in one word do not disturb each other.
pub proof fn law_counts_are_kept_apart(strong_refs: int, weak_refs: int)
    requires
        0 <= strong_refs <= u32::MAX,
        0 <= weak_refs <= u32::MAX,
    ensures
        strong(combined(strong_refs, weak_refs)) == strong_refs,
        weak(combined(strong_refs, weak_refs)) == weak_refs,
{
    lemma_combined(strong_refs, weak_refs);
}

} // verus!
