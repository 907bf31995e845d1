//! Histories that are browsed in a cycle: saved camera positions and saved
//! scenes.
use vstd::prelude::*;
use std::collections::VecDeque;
use vstd::std_specs::cmp::PartialEqSpec;
use crate::buffer::{le_word, be_word};

verus! {

/// `s` with its first element moved to the back.
pub open spec fn rotated_left<T>(s: Seq<T>) -> Seq<T> {
    if s.len() == 0 {
        s
    } else {
        s.subrange(1, s.len() as int).push(s[0])
    }
}

/// `s` with its last element moved to the front.
pub open spec fn rotated_right<T>(s: Seq<T>) -> Seq<T> {
    if s.len() == 0 {
        s
    } else {
        seq![s[s.len() - 1]] + s.subrange(0, s.len() - 1)
    }
}

/// `s` rotated left `k` times.
pub open spec fn rotated_left_times<T>(s: Seq<T>, k: nat) -> Seq<T>
    decreases k,
{
    if k == 0 {
        s
    } else {
        rotated_left(rotated_left_times(s, (k - 1) as nat))
    }
}

fn rotate_left_one<T>(q: &mut VecDeque<T>)
    ensures
        final(q)@ == rotated_left(old(q)@),
{
    if let Some(x) = q.pop_front() {
        q.push_back(x);
    }
}

fn rotate_right_one<T>(q: &mut VecDeque<T>)
    ensures
        final(q)@ == rotated_right(old(q)@),
{
    if let Some(x) = q.pop_back() {
        q.push_front(x);
    }
}

/// Law: moving the front to the back and then the back to the front gives
/// back the sequence, and so does the other order.
pub proof fn rotations_undo_each_other<T>(s: Seq<T>)
    ensures
        rotated_right(rotated_left(s)) == s,
        rotated_left(rotated_right(s)) == s,
{
    if s.len() > 0 {
        assert(rotated_right(rotated_left(s)) =~= s);
        assert(rotated_left(rotated_right(s)) =~= s);
    }
}

proof fn lemma_rotated_left_times<T>(s: Seq<T>, k: nat)
    requires
        k <= s.len(),
    ensures
        rotated_left_times(s, k) == s.subrange(k as int, s.len() as int) + s.subrange(0, k as int),
    decreases k,
{
    if k == 0 {
        assert(s.subrange(0, s.len() as int) + s.subrange(0, 0) =~= s);
    } else {
        lemma_rotated_left_times(s, (k - 1) as nat);
        let prev = rotated_left_times(s, (k - 1) as nat);
        assert(prev.len() == s.len());
        assert(prev[0] == s[k - 1]);
        assert(rotated_left(prev) =~= s.subrange(k as int, s.len() as int) + s.subrange(0, k as int));
    }
}

/// Law: rotating a sequence left as many times as it is long gives it back,
/// so browsing forward through a whole history returns to where it began.
pub proof fn full_cycle_restores<T>(s: Seq<T>)
    ensures
        rotated_left_times(s, s.len()) == s,
{
    lemma_rotated_left_times(s, s.len());
    assert(s.subrange(s.len() as int, s.len() as int) + s.subrange(0, s.len() as int) =~= s);
}

/// Law: after `k` forward steps through a non-empty history (fewer than its
/// length), the current element (the last one) is the `k`-th element of the
/// starting history, counting from one.
pub proof fn forward_steps_visit_in_order<T>(s: Seq<T>, k: nat)
    requires
        0 < k <= s.len(),
    ensures
        rotated_left_times(s, k).last() == s[k - 1],
        rotated_left_times(s, k).len() == s.len(),
{
    lemma_rotated_left_times(s, k);
}

/// No element of `s` is reported equal to a later one.
pub open spec fn no_repeats<C: PartialEq>(s: Seq<C>) -> bool {
    forall|i: int, j: int| #![trigger s[i], s[j]] 0 <= i < j < s.len() ==> !s[i].eq_spec(&s[j])
}

/// Some element of `s` is reported equal to `c`.
pub open spec fn holds_equal<C: PartialEq>(s: Seq<C>, c: C) -> bool {
    exists|i: int| 0 <= i < s.len() && (#[trigger] s[i]).eq_spec(&c)
}

/// The camera positions recorded while sampling, browsed in a cycle.
pub struct CameraHistory<C> {
    pub history: VecDeque<C>,
}

impl<C> CameraHistory<C> {
    /// An empty history.
    pub fn new() -> (h: CameraHistory<C>)
        ensures
            h.history@ == Seq::<C>::empty(),
    {
        CameraHistory { history: VecDeque::new() }
    }

    /// Records a copy of `camera` at the back unless an equal camera is
    /// already recorded.  When `==` on `C` follows its specification, the
    /// copy is added exactly when no recorded camera equals `camera`.
    pub fn save_point(&mut self, camera: &C) where C: PartialEq + Clone
        ensures
            save_point_result(old(self).history@, final(self).history@, *camera),
    {
        let ghost h = self.history@;
        let mut found = false;
        let mut i: usize = 0;
        while i < self.history.len()
            invariant
                self.history@ == h,
                i <= h.len(),
                C::obeys_eq_spec() ==> (found <==> exists|j: int| 0 <= j < i && (#[trigger] h[j]).eq_spec(camera)),
                !found ==> forall|j: int| 0 <= j < i ==> !(C::obeys_eq_spec() && (#[trigger] h[j]).eq_spec(camera)),
            decreases h.len() - i,
        {
            if self.history[i] == *camera {
                found = true;
            }
            i = i + 1;
        }
        if !found {
            let copy = camera.clone();
            self.history.push_back(copy);
            assert(self.history@.take(h.len() as int) =~= h);
            assert(self.history@ != h) by {
                assert(self.history@.len() != h.len());
            }
        }
    }

    /// Moves the front camera to the back and returns it; `None` when the
    /// history is empty.
    pub fn next_save(&mut self) -> (next: Option<&C>)
        ensures
            final(self).history@ == rotated_left(old(self).history@),
            old(self).history@.len() == 0 ==> next is None,
            old(self).history@.len() > 0 ==> (next matches Some(c) && *c == old(self).history@[0]),
    {
        if self.history.len() == 0 {
            return None;
        }
        rotate_left_one(&mut self.history);
        let n = self.history.len();
        Some(&self.history[n - 1])
    }

    /// Moves the back camera to the front and returns the new back one;
    /// `None` when the history is empty.
    pub fn previous_save(&mut self) -> (previous: Option<&C>)
        ensures
            final(self).history@ == rotated_right(old(self).history@),
            old(self).history@.len() == 0 ==> previous is None,
            old(self).history@.len() > 0 ==> (previous matches Some(c) && *c == rotated_right(old(self).history@).last()),
    {
        if self.history.len() == 0 {
            return None;
        }
        rotate_right_one(&mut self.history);
        let n = self.history.len();
        Some(&self.history[n - 1])
    }

    /// The number of recorded cameras.
    pub fn len(&self) -> (n: usize)
        ensures
            n == self.history@.len(),
    {
        self.history.len()
    }
}

/// `crevice::std140::Writer::write` of one `u32` into an empty `Vec<u8>`.
/// Its source writes no padding at offset zero, then the four bytes of the
/// value in the machine's byte order, and writing to a `Vec` cannot fail;
/// this states that the buffer holds four bytes that read back as the value
/// in little- or big-endian order, not which one.
#[verifier::external_body]
fn std140_u32_bytes(value: u32) -> (bytes: Vec<u8>)
    ensures
        bytes@.len() == 4,
        le_word(bytes@, 0) == value || be_word(bytes@, 0) == value,
{
    let mut buffer: Vec<u8> = Vec::new();
    let mut writer = crevice::std140::Writer::new(&mut buffer);
    let _ = writer.write(&value);
    buffer
}

impl<C> CameraHistory<C> {
    /// The number of recorded cameras as the `u32` of a uniform buffer (the
    /// count taken modulo 2^32), in the machine's byte order.
    pub fn size_to_bytes(&self) -> (bytes: Vec<u8>)
        ensures
            bytes@.len() == 4,
            le_word(bytes@, 0) == (self.history@.len() as u32) || be_word(bytes@, 0) == (self.history@.len() as u32),
    {
        let n = self.history.len();
        #[verifier::truncate]
        let count = n as u32;
        std140_u32_bytes(count)
    }
}

/// What recording `camera` does to the history `before`: it stays as it is,
/// or a clone of `camera` is appended at the back; when `==` on `C` follows
/// its specification, it stays exactly when a recorded camera equals
/// `camera`.
pub open spec fn save_point_result<C: PartialEq + Clone>(before: Seq<C>, after: Seq<C>, camera: C) -> bool {
    &&& after == before || (after.len() == before.len() + 1 && after.take(before.len() as int) == before
        && cloned::<C>(camera, after.last()))
    &&& C::obeys_eq_spec() ==> (after == before <==> holds_equal(before, camera))
}

/// Law: for a camera type whose `==` follows its specification and whose
/// clone of `camera` is `camera`, recording `camera` in a history without
/// repeats leaves it unchanged when an equal camera is recorded, and
/// otherwise appends `camera` itself; either way the history still holds
/// no two equal cameras.
pub proof fn save_point_keeps_no_repeats<C: PartialEq + Clone>(before: Seq<C>, after: Seq<C>, camera: C)
    requires
        C::obeys_eq_spec(),
        forall|x: C| #[trigger] cloned::<C>(camera, x) ==> x == camera,
        no_repeats(before),
        save_point_result(before, after, camera),
    ensures
        after == before <==> holds_equal(before, camera),
        after != before ==> after == before.push(camera),
        after == before ==> holds_equal(after, camera),
        no_repeats(after),
{
    if after != before {
        assert(after.last() == camera);
        assert(after =~= before.push(camera));
        assert forall|i: int, j: int| #![trigger after[i], after[j]] 0 <= i < j < after.len() implies !after[i].eq_spec(&after[j]) by {
            assert(after[i] == before[i]);
            if j < before.len() {
                assert(after[j] == before[j]);
            } else {
                assert(!holds_equal(before, camera));
                assert(!before[i].eq_spec(&camera));
            }
        }
    }
}

/// Saved scenes, browsed in a cycle, and the state of the save prompt.
pub struct SaveManager<S> {
    pub saves: VecDeque<S>,
    pub current_save_name: String,
    pub save_open: bool,
    pub first_draw: bool,
    pub name_inserted: bool,
}

impl<S> SaveManager<S> {
    /// A manager over the saves found on disk, with the prompt closed and
    /// an empty name.
    pub fn boot(saves: VecDeque<S>) -> (m: SaveManager<S>)
        ensures
            m.saves@ == saves@,
            m.current_save_name@ == Seq::<char>::empty(),
            !m.save_open,
            !m.first_draw,
            !m.name_inserted,
    {
        SaveManager {
            current_save_name: String::new(),
            saves,
            save_open: false,
            first_draw: false,
            name_inserted: false,
        }
    }

    /// Appends a save (already written to disk) and closes the prompt.
    pub fn add_save(&mut self, save: S)
        ensures
            final(self).saves@ == old(self).saves@.push(save),
            !final(self).save_open,
            final(self).current_save_name == old(self).current_save_name,
            final(self).first_draw == old(self).first_draw,
            final(self).name_inserted == old(self).name_inserted,
    {
        self.saves.push_back(save);
        self.save_open = false;
    }

    /// Moves the front save to the back and returns it; `None` when there
    /// is no save.
    pub fn next_save(&mut self) -> (next: Option<&S>)
        ensures
            final(self).saves@ == rotated_left(old(self).saves@),
            final(self).current_save_name == old(self).current_save_name,
            final(self).save_open == old(self).save_open,
            final(self).first_draw == old(self).first_draw,
            final(self).name_inserted == old(self).name_inserted,
            old(self).saves@.len() == 0 ==> next is None,
            old(self).saves@.len() > 0 ==> (next matches Some(s) && *s == old(self).saves@[0]),
    {
        if self.saves.len() == 0 {
            return None;
        }
        rotate_left_one(&mut self.saves);
        let n = self.saves.len();
        Some(&self.saves[n - 1])
    }

    /// Moves the back save to the front and returns the new back one;
    /// `None` when there is no save.
    pub fn previous_save(&mut self) -> (previous: Option<&S>)
        ensures
            final(self).saves@ == rotated_right(old(self).saves@),
            final(self).current_save_name == old(self).current_save_name,
            final(self).save_open == old(self).save_open,
            final(self).first_draw == old(self).first_draw,
            final(self).name_inserted == old(self).name_inserted,
            old(self).saves@.len() == 0 ==> previous is None,
            old(self).saves@.len() > 0 ==> (previous matches Some(s) && *s == rotated_right(old(self).saves@).last()),
    {
        if self.saves.len() == 0 {
            return None;
        }
        rotate_right_one(&mut self.saves);
        let n = self.saves.len();
        Some(&self.saves[n - 1])
    }

    /// Start of drawing the save prompt: when the prompt is closed, marks
    /// the next opening as a first draw, clears the entered flag and returns
    /// `false`; otherwise returns `true` and changes nothing.
    pub fn draw_ui_begin(&mut self) -> (show: bool)
        ensures
            show == old(self).save_open,
            final(self).saves@ == old(self).saves@,
            final(self).current_save_name == old(self).current_save_name,
            final(self).save_open == old(self).save_open,
            !show ==> final(self).first_draw && !final(self).name_inserted,
            show ==> final(self).first_draw == old(self).first_draw && final(self).name_inserted == old(
                self,
            ).name_inserted,
    {
        if !self.save_open {
            self.first_draw = true;
            self.name_inserted = false;
            return false;
        }
        true
    }

    /// End of drawing the open save prompt, given which buttons were
    /// clicked: "Save" marks the name as entered, "Cancel" closes the
    /// prompt, forgets the name and clears the entered flag; the prompt is
    /// no longer at its first draw.
    pub fn draw_ui_end(&mut self, save_clicked: bool, cancel_clicked: bool)
        ensures
            final(self).saves@ == old(self).saves@,
            !final(self).first_draw,
            final(self).save_open == (old(self).save_open && !cancel_clicked),
            final(self).name_inserted == if cancel_clicked {
                false
            } else if save_clicked {
                true
            } else {
                old(self).name_inserted
            },
            final(self).current_save_name@ == if cancel_clicked {
                Seq::<char>::empty()
            } else {
                old(self).current_save_name@
            },
    {
        if save_clicked {
            self.first_draw = false;
            self.name_inserted = true;
        }
        if cancel_clicked {
            self.save_open = false;
            self.name_inserted = false;
            self.current_save_name = String::new();
        }
        self.first_draw = false;
    }
}

} // verus!
