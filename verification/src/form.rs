//! Items, focus and scrolling of `javax.microedition.lcdui.Form`.
//!
//! Items are named by identifiers; whether an item can take focus, and how
//! large it is, is asked of the item itself and handed in.
use vstd::prelude::*;

use crate::errors::UiError;
use crate::item::min;
use crate::geometry::{
    clamp, clamp_exec, half_toward_zero, nonnegative, sat_add, sat_sub, saturate,
};
use crate::event_queue::{KEY_DOWN, KEY_FIRE, KEY_LEFT, KEY_RIGHT, KEY_UP};

verus! {

/// The first focusable index at or after `p`, or -1.
pub open spec fn first_focusable_from(focusable: Seq<bool>, p: int) -> int
    decreases focusable.len() - p,
{
    if p < 0 || p >= focusable.len() {
        -1
    } else if focusable[p] {
        p
    } else {
        first_focusable_from(focusable, p + 1)
    }
}

/// The last focusable index before `p`, or -1.
pub open spec fn last_focusable_before(focusable: Seq<bool>, p: int) -> int
    decreases p,
{
    if p <= 0 || p > focusable.len() {
        -1
    } else if focusable[p - 1] {
        p - 1
    } else {
        last_focusable_before(focusable, p - 1)
    }
}

/// Where focus lands given a preferred position: on the first focusable
/// item when there is no preference, else on the first focusable item at or
/// after the preferred one (clamped to the last item), else on the nearest
/// focusable item before it, else nowhere.
pub open spec fn normalized_focus(focusable: Seq<bool>, preferred: int) -> int {
    if focusable.len() == 0 {
        -1
    } else if preferred < 0 {
        first_focusable_from(focusable, 0)
    } else {
        let p = if preferred > focusable.len() - 1 { focusable.len() - 1 } else { preferred };
        let after = first_focusable_from(focusable, p);
        if after >= 0 {
            after
        } else {
            last_focusable_before(focusable, p)
        }
    }
}

pub proof fn lemma_first_focusable_from(focusable: Seq<bool>, p: int)
    requires
        0 <= p,
    ensures
        first_focusable_from(focusable, p) == -1 || (p <= first_focusable_from(focusable, p)
            < focusable.len() && focusable[first_focusable_from(focusable, p)]),
        first_focusable_from(focusable, p) == -1 ==> forall|j: int|
            p <= j < focusable.len() ==> !focusable[j],
        first_focusable_from(focusable, p) >= 0 ==> forall|j: int|
            p <= j < first_focusable_from(focusable, p) ==> !focusable[j],
    decreases focusable.len() - p,
{
    if p < focusable.len() && !focusable[p] {
        lemma_first_focusable_from(focusable, p + 1);
    }
}

pub proof fn lemma_last_focusable_before(focusable: Seq<bool>, p: int)
    requires
        0 <= p <= focusable.len(),
    ensures
        last_focusable_before(focusable, p) == -1 || (0 <= last_focusable_before(focusable, p) < p
            && focusable[last_focusable_before(focusable, p)]),
        last_focusable_before(focusable, p) == -1 ==> forall|j: int| 0 <= j < p ==> !focusable[j],
        last_focusable_before(focusable, p) >= 0 ==> forall|j: int|
            last_focusable_before(focusable, p) < j < p ==> !focusable[j],
    decreases p,
{
    if p > 0 && !focusable[p - 1] {
        lemma_last_focusable_before(focusable, p - 1);
    }
}

/// Focus lands on a focusable item, and lands nowhere only when no item
/// can take focus.
pub proof fn lemma_normalized_focus_is_focusable(focusable: Seq<bool>, preferred: int)
    ensures
        -1 <= normalized_focus(focusable, preferred) < focusable.len(),
        normalized_focus(focusable, preferred) >= 0 ==> focusable[normalized_focus(
            focusable,
            preferred,
        )],
        normalized_focus(focusable, preferred) == -1 <==> forall|j: int|
            0 <= j < focusable.len() ==> !focusable[j],
{
    if focusable.len() > 0 {
        if preferred < 0 {
            lemma_first_focusable_from(focusable, 0);
        } else {
            let p = if preferred > focusable.len() - 1 { focusable.len() - 1 } else { preferred };
            lemma_first_focusable_from(focusable, p);
            lemma_last_focusable_before(focusable, p);
        }
    }
}

/// A focusable preferred item keeps the focus.
pub proof fn lemma_focusable_preference_is_kept(focusable: Seq<bool>, preferred: int)
    requires
        0 <= preferred < focusable.len(),
        focusable[preferred],
    ensures
        normalized_focus(focusable, preferred) == preferred,
{
}

fn first_focusable_from_exec(focusable: &Vec<bool>, p: usize) -> (r: i32)
    requires
        focusable@.len() < i32::MAX,
    ensures
        r == first_focusable_from(focusable@, p as int),
{
    let mut i = p;
    while i < focusable.len()
        invariant
            p <= i,
            focusable@.len() < i32::MAX,
            first_focusable_from(focusable@, i as int) == first_focusable_from(focusable@, p as int),
        decreases focusable@.len() - i,
    {
        if focusable[i] {
            return i as i32;
        }
        i += 1;
    }
    -1
}

fn last_focusable_before_exec(focusable: &Vec<bool>, p: usize) -> (r: i32)
    requires
        focusable@.len() < i32::MAX,
        p <= focusable@.len(),
    ensures
        r == last_focusable_before(focusable@, p as int),
{
    let mut i = p;
    while i > 0
        invariant
            i <= p <= focusable@.len() < i32::MAX,
            last_focusable_before(focusable@, i as int) == last_focusable_before(focusable@, p as int),
        decreases i,
    {
        if focusable[i - 1] {
            return (i - 1) as i32;
        }
        i -= 1;
    }
    -1
}

/// Where focus lands given a preferred position; see [`normalized_focus`].
pub fn normalize_focus(focusable: &Vec<bool>, preferred: i32) -> (r: i32)
    requires
        focusable@.len() < i32::MAX,
    ensures
        r == normalized_focus(focusable@, preferred as int),
{
    let n = focusable.len();
    if n == 0 {
        return -1;
    }
    if preferred < 0 {
        return first_focusable_from_exec(focusable, 0);
    }
    let p = if preferred as usize > n - 1 {
        n - 1
    } else {
        preferred as usize
    };
    let after = first_focusable_from_exec(focusable, p);
    if after >= 0 {
        after
    } else {
        last_focusable_before_exec(focusable, p)
    }
}

/// The abstract state of a form.
pub struct FormView {
    /// The items, in order, by identifier.
    pub items: Seq<u64>,
    /// The focused item, or -1.
    pub focus_index: int,
    /// How far the content is scrolled up, in pixels.
    pub scroll_y: int,
    /// Whether the last vertical key scrolled the content rather than
    /// moving focus.
    pub content_scrolling: bool,
}

/// `javax.microedition.lcdui.Form`: which items it owns, which one has
/// focus, and how far it is scrolled.
pub struct Form {
    items: Vec<u64>,
    focus_index: i32,
    scroll_y: i32,
    content_scrolling: bool,
}

impl View for Form {
    type V = FormView;

    closed spec fn view(&self) -> FormView {
        FormView {
            items: self.items@,
            focus_index: self.focus_index as int,
            scroll_y: self.scroll_y as int,
            content_scrolling: self.content_scrolling,
        }
    }
}

/// The invariant of a form: an item is owned at most once, and focus is on
/// an item or nowhere.
pub open spec fn form_wf(v: FormView) -> bool {
    &&& v.items.no_duplicates()
    &&& v.items.len() < i32::MAX - 1
    &&& -1 <= v.focus_index < v.items.len()
    &&& 0 <= v.scroll_y
}

/// The focus position to prefer after inserting at `index`: the focused
/// item moves along.
pub open spec fn focus_after_insert(focus_index: int, index: int) -> int {
    if focus_index >= index {
        focus_index + 1
    } else {
        focus_index
    }
}

/// The focus position to prefer after deleting `index` from a form that
/// is left with `size` items: the item after the deleted one takes its
/// place.
pub open spec fn focus_after_delete(focus_index: int, index: int, size: int) -> int {
    if size == 0 {
        -1
    } else if focus_index > index {
        focus_index - 1
    } else if focus_index > size - 1 {
        size - 1
    } else {
        focus_index
    }
}

/// Whether `items` can be given to a new form: none may have an owner, and
/// none may appear twice.
/// Whether the initial item at `k` is refused: it is null, already has an
/// owner, or was given before.
pub open spec fn item_refused(items: Seq<Option<u64>>, has_owner: Seq<bool>, k: int) -> bool {
    ||| items[k] is None
    ||| has_owner[k]
    ||| exists|j: int| 0 <= j < k && items[j] == items[k]
}

/// The error for the first refused initial item: a null one is a null
/// pointer, any other refusal an illegal state.
pub open spec fn refusal_error(items: Seq<Option<u64>>, k: int) -> UiError {
    if items[k] is None {
        UiError::NullPointer
    } else {
        UiError::IllegalState
    }
}

impl Form {
    /// An empty form.
    pub fn new() -> (r: Form)
        ensures
            form_wf(r@),
            r@ == (FormView { items: Seq::empty(), focus_index: -1, scroll_y: 0, content_scrolling: false }),
    {
        Form { items: Vec::new(), focus_index: -1, scroll_y: 0, content_scrolling: false }
    }

    /// A form that owns `items` (`None` stands for a null item);
    /// `has_owner[i]` tells whether `items[i]` already belongs to a screen,
    /// and `focusable[i]` whether it can take focus. The items are checked
    /// in order, and the first refused one decides the error (see
    /// [`item_refused`]). Focus goes to the first focusable item.
    pub fn with_items(items: &Vec<Option<u64>>, has_owner: &Vec<bool>, focusable: &Vec<bool>) -> (r: Result<
        Form,
        UiError,
    >)
        requires
            has_owner@.len() == items@.len(),
            focusable@.len() == items@.len(),
            items@.len() < i32::MAX - 1,
        ensures
            (forall|k: int| 0 <= k < items@.len() ==> !item_refused(items@, has_owner@, k)) ==> (
            r matches Ok(f) && form_wf(f@) && f@ == (FormView {
                items: items@.map_values(|o: Option<u64>| o->Some_0),
                focus_index: normalized_focus(focusable@, -1),
                scroll_y: 0,
                content_scrolling: false,
            })),
            forall|k: int|
                0 <= k < items@.len() && item_refused(items@, has_owner@, k) && (forall|j: int|
                    0 <= j < k ==> !item_refused(items@, has_owner@, j)) ==> r == Err::<Form, UiError>(
                    refusal_error(items@, k),
                ),
    {
        let mut ids: Vec<u64> = Vec::new();
        let mut i: usize = 0;
        while i < items.len()
            invariant
                i <= items@.len() == has_owner@.len(),
                forall|k: int| 0 <= k < i ==> !item_refused(items@, has_owner@, k),
                ids@ == items@.subrange(0, i as int).map_values(|o: Option<u64>| o->Some_0),
            decreases items@.len() - i,
        {
            let id = match items[i] {
                Some(id) => id,
                None => {
                    proof {
                        assert(item_refused(items@, has_owner@, i as int));
                    }
                    return Err(UiError::NullPointer);
                },
            };
            if has_owner[i] {
                proof {
                    assert(item_refused(items@, has_owner@, i as int));
                }
                return Err(UiError::IllegalState);
            }
            let mut j: usize = 0;
            while j < i
                invariant
                    j <= i < items@.len() == has_owner@.len(),
                    items@[i as int] is Some,
                    forall|k: int| 0 <= k < i ==> !item_refused(items@, has_owner@, k),
                    forall|k: int| 0 <= k < j ==> items@[k] != items@[i as int],
                decreases i - j,
            {
                if items[j] == items[i] {
                    proof {
                        assert(items@[j as int] == items@[i as int]);
                        assert(item_refused(items@, has_owner@, i as int));
                    }
                    return Err(UiError::IllegalState);
                }
                j += 1;
            }
            ids.push(id);
            proof {
                assert(items@.subrange(0, i + 1).map_values(|o: Option<u64>| o->Some_0) =~= items@.subrange(
                    0,
                    i as int,
                ).map_values(|o: Option<u64>| o->Some_0).push(id));
            }
            i += 1;
        }
        proof {
            lemma_normalized_focus_is_focusable(focusable@, -1);
            assert(items@.subrange(0, items@.len() as int) =~= items@);
            assert forall|a: int, b: int| 0 <= a < b < ids@.len() implies ids@[a] != ids@[b] by {
                assert(!item_refused(items@, has_owner@, a));
                assert(!item_refused(items@, has_owner@, b));
                assert(ids@[a] == items@[a]->Some_0);
                assert(ids@[b] == items@[b]->Some_0);
                if ids@[a] == ids@[b] {
                    assert(items@[a] == items@[b]);
                }
            }
        }
        let focus_index = normalize_focus(focusable, -1);
        Ok(Form { items: ids, focus_index, scroll_y: 0, content_scrolling: false })
    }

    /// The number of items.
    pub fn size(&self) -> (r: i32)
        requires
            form_wf(self@),
        ensures
            r == self@.items.len(),
    {
        self.items.len() as i32
    }

    /// The item at `index`.
    pub fn get(&self, index: i32) -> (r: Result<u64, UiError>)
        requires
            form_wf(self@),
        ensures
            0 <= index < self@.items.len() ==> r == Ok::<u64, UiError>(self@.items[index as int]),
            !(0 <= index < self@.items.len()) ==> r == Err::<u64, UiError>(UiError::IndexOutOfBounds),
    {
        if index < 0 || index as usize >= self.items.len() {
            return Err(UiError::IndexOutOfBounds);
        }
        Ok(self.items[index as usize])
    }

    /// The focused item, if any.
    pub fn focused_item(&self) -> (r: Option<u64>)
        requires
            form_wf(self@),
        ensures
            self@.focus_index < 0 ==> r is None,
            self@.focus_index >= 0 ==> r == Some(self@.items[self@.focus_index]),
    {
        if self.focus_index < 0 {
            None
        } else {
            Some(self.items[self.focus_index as usize])
        }
    }

    pub fn focus_index(&self) -> (r: i32)
        ensures
            r == self@.focus_index,
    {
        self.focus_index
    }

    pub fn scroll_y(&self) -> (r: i32)
        ensures
            r == self@.scroll_y,
    {
        self.scroll_y
    }

    pub fn is_content_scrolling(&self) -> (r: bool)
        ensures
            r == self@.content_scrolling,
    {
        self.content_scrolling
    }

    fn contains(&self, item: u64) -> (r: bool)
        ensures
            r == self@.items.contains(item),
    {
        let mut i: usize = 0;
        while i < self.items.len()
            invariant
                i <= self.items@.len(),
                forall|k: int| 0 <= k < i ==> self.items@[k] != item,
            decreases self.items@.len() - i,
        {
            if self.items[i] == item {
                return true;
            }
            i += 1;
        }
        false
    }

    /// Focus lands anew, preferring `preferred`; scrolling is reset to
    /// follow focus, and an empty form scrolls back to the top.
    fn relayout(&mut self, focusable: &Vec<bool>, preferred: i32)
        requires
            focusable@.len() == old(self).items@.len() < i32::MAX - 1,
            0 <= old(self).scroll_y,
        ensures
            final(self).items == old(self).items,
            final(self).focus_index == normalized_focus(focusable@, preferred as int),
            final(self).scroll_y == if focusable@.len() == 0 { 0 } else { old(self).scroll_y },
            final(self).content_scrolling == false,
            -1 <= final(self).focus_index < final(self).items@.len(),
            0 <= final(self).scroll_y,
    {
        proof {
            lemma_normalized_focus_is_focusable(focusable@, preferred as int);
        }
        self.content_scrolling = false;
        self.focus_index = normalize_focus(focusable, preferred);
        if focusable.len() == 0 {
            self.scroll_y = 0;
        }
    }

    /// Inserts `item` at `index`; `None` stands for a null item.
    /// `item_has_owner` tells whether the item already belongs to a screen;
    /// `focusable` tells, for the items after the insertion, which can take
    /// focus. The focused item keeps focus if it still can. The index is
    /// checked first, then that the item is given, then that it is free.
    pub fn insert(&mut self, index: i32, item: Option<u64>, item_has_owner: bool, focusable: &Vec<bool>) -> (r:
        Result<(), UiError>)
        requires
            form_wf(old(self)@),
            old(self)@.items.len() < i32::MAX - 2,
            focusable@.len() == old(self)@.items.len() + 1,
        ensures
            form_wf(final(self)@),
            !(0 <= index <= old(self)@.items.len()) ==> r == Err::<(), UiError>(UiError::IndexOutOfBounds)
                && final(self)@ == old(self)@,
            0 <= index <= old(self)@.items.len() && item is None ==> r == Err::<(), UiError>(
                UiError::NullPointer,
            ) && final(self)@ == old(self)@,
            0 <= index <= old(self)@.items.len() && item is Some && (item_has_owner || old(self)@.items.contains(item->Some_0)) ==> r == Err::<(), UiError>(UiError::IllegalState) && final(self)@ == old(self)@,
            0 <= index <= old(self)@.items.len() && item is Some && !item_has_owner && !old(self)@.items.contains(item->Some_0) ==> r is Ok && final(self)@ == (FormView {
                items: old(self)@.items.insert(index as int, item->Some_0),
                focus_index: normalized_focus(
                    focusable@,
                    focus_after_insert(old(self)@.focus_index, index as int),
                ),
                scroll_y: old(self)@.scroll_y,
                content_scrolling: false,
            }),
    {
        if index < 0 || index as usize > self.items.len() {
            return Err(UiError::IndexOutOfBounds);
        }
        let item = match item {
            Some(id) => id,
            None => {
                return Err(UiError::NullPointer);
            },
        };
        if item_has_owner || self.contains(item) {
            return Err(UiError::IllegalState);
        }
        let ghost old_items = self.items@;
        self.items.insert(index as usize, item);
        proof {
            let s = self.items@;
            assert forall|a: int, b: int| 0 <= a < s.len() && 0 <= b < s.len() && a != b implies s[a]
                != s[b] by {
                if a != index && b != index {
                    let oa = if a < index { a } else { a - 1 };
                    let ob = if b < index { b } else { b - 1 };
                    assert(s[a] == old_items[oa]);
                    assert(s[b] == old_items[ob]);
                } else if a == index {
                    let ob = if b < index { b } else { b - 1 };
                    assert(s[b] == old_items[ob]);
                } else {
                    let oa = if a < index { a } else { a - 1 };
                    assert(s[a] == old_items[oa]);
                }
            }
        }
        let preferred = if self.focus_index >= index {
            self.focus_index + 1
        } else {
            self.focus_index
        };
        self.relayout(focusable, preferred);
        Ok(())
    }

    /// Appends `item`; see [`Form::insert`]. Returns the item's index.
    pub fn append(&mut self, item: Option<u64>, item_has_owner: bool, focusable: &Vec<bool>) -> (r: Result<
        i32,
        UiError,
    >)
        requires
            form_wf(old(self)@),
            old(self)@.items.len() < i32::MAX - 2,
            focusable@.len() == old(self)@.items.len() + 1,
        ensures
            form_wf(final(self)@),
            item is None ==> r == Err::<i32, UiError>(UiError::NullPointer) && final(self)@ == old(self)@,
            item is Some && (item_has_owner || old(self)@.items.contains(item->Some_0)) ==> r == Err::<
                i32,
                UiError,
            >(UiError::IllegalState) && final(self)@ == old(self)@,
            item is Some && !item_has_owner && !old(self)@.items.contains(item->Some_0) ==> r == Ok::<
                i32,
                UiError,
            >(old(self)@.items.len() as i32) && final(self)@ == (FormView {
                items: old(self)@.items.push(item->Some_0),
                focus_index: normalized_focus(
                    focusable@,
                    focus_after_insert(old(self)@.focus_index, old(self)@.items.len() as int),
                ),
                scroll_y: old(self)@.scroll_y,
                content_scrolling: false,
            }),
    {
        let index = self.items.len() as i32;
        match self.insert(index, item, item_has_owner, focusable) {
            Ok(()) => {
                proof {
                    assert(old(self)@.items.insert(index as int, item->Some_0) =~= old(self)@.items.push(
                        item->Some_0,
                    ));
                }
                Ok(index)
            },
            Err(e) => Err(e),
        }
    }

    /// Replaces the item at `index` with `item` (`None` for a null item)
    /// and returns the replaced item, which no longer belongs to the form.
    /// The index is checked first, then that the item is given, then that
    /// it is free.
    pub fn set(&mut self, index: i32, item: Option<u64>, item_has_owner: bool, focusable: &Vec<bool>) -> (r:
        Result<u64, UiError>)
        requires
            form_wf(old(self)@),
            focusable@.len() == old(self)@.items.len(),
        ensures
            form_wf(final(self)@),
            !(0 <= index < old(self)@.items.len()) ==> r == Err::<u64, UiError>(UiError::IndexOutOfBounds)
                && final(self)@ == old(self)@,
            0 <= index < old(self)@.items.len() && item is None ==> r == Err::<u64, UiError>(
                UiError::NullPointer,
            ) && final(self)@ == old(self)@,
            0 <= index < old(self)@.items.len() && item is Some && (item_has_owner || old(self)@.items.contains(item->Some_0)) ==> r == Err::<u64, UiError>(UiError::IllegalState) && final(self)@ == old(self)@,
            0 <= index < old(self)@.items.len() && item is Some && !item_has_owner && !old(self)@.items.contains(item->Some_0) ==> r == Ok::<u64, UiError>(old(self)@.items[index as int])
                && final(self)@ == (FormView {
                items: old(self)@.items.update(index as int, item->Some_0),
                focus_index: normalized_focus(focusable@, old(self)@.focus_index),
                scroll_y: old(self)@.scroll_y,
                content_scrolling: false,
            }),
    {
        if index < 0 || index as usize >= self.items.len() {
            return Err(UiError::IndexOutOfBounds);
        }
        let item = match item {
            Some(id) => id,
            None => {
                return Err(UiError::NullPointer);
            },
        };
        if item_has_owner || self.contains(item) {
            return Err(UiError::IllegalState);
        }
        let old_item = self.items[index as usize];
        let ghost old_items = self.items@;
        self.items.set(index as usize, item);
        proof {
            let s = self.items@;
            assert forall|a: int, b: int| 0 <= a < s.len() && 0 <= b < s.len() && a != b implies s[a]
                != s[b] by {
                if a != index && b != index {
                    assert(s[a] == old_items[a]);
                    assert(s[b] == old_items[b]);
                } else if a == index {
                    assert(s[b] == old_items[b]);
                } else {
                    assert(s[a] == old_items[a]);
                }
            }
        }
        let preferred = self.focus_index;
        self.relayout(focusable, preferred);
        Ok(old_item)
    }

    /// Deletes the item at `index` and returns it; `focusable` tells, for
    /// the remaining items, which can take focus. When the focused item is
    /// deleted, focus moves to the next focusable item, else to the
    /// nearest one before.
    pub fn delete(&mut self, index: i32, focusable: &Vec<bool>) -> (r: Result<u64, UiError>)
        requires
            form_wf(old(self)@),
            focusable@.len() + 1 == old(self)@.items.len() || !(0 <= index < old(self)@.items.len()),
        ensures
            form_wf(final(self)@),
            !(0 <= index < old(self)@.items.len()) ==> r == Err::<u64, UiError>(UiError::IndexOutOfBounds)
                && final(self)@ == old(self)@,
            0 <= index < old(self)@.items.len() ==> r == Ok::<u64, UiError>(old(self)@.items[index as int])
                && final(self)@ == (FormView {
                items: old(self)@.items.remove(index as int),
                focus_index: normalized_focus(
                    focusable@,
                    focus_after_delete(
                        old(self)@.focus_index,
                        index as int,
                        old(self)@.items.len() - 1,
                    ),
                ),
                scroll_y: if old(self)@.items.len() == 1 { 0 } else { old(self)@.scroll_y },
                content_scrolling: false,
            }),
    {
        if index < 0 || index as usize >= self.items.len() {
            return Err(UiError::IndexOutOfBounds);
        }
        let ghost old_items = self.items@;
        let item = self.items.remove(index as usize);
        proof {
            let s = self.items@;
            assert forall|a: int, b: int| 0 <= a < s.len() && 0 <= b < s.len() && a != b implies s[a]
                != s[b] by {
                let oa = if a < index { a } else { a + 1 };
                let ob = if b < index { b } else { b + 1 };
                assert(s[a] == old_items[oa]);
                assert(s[b] == old_items[ob]);
            }
        }
        let size = self.items.len() as i32;
        let preferred = if size == 0 {
            -1
        } else if self.focus_index > index {
            self.focus_index - 1
        } else if self.focus_index > size - 1 {
            size - 1
        } else {
            self.focus_index
        };
        self.relayout(focusable, preferred);
        Ok(item)
    }

    /// Deletes every item and returns them; nothing has focus and the form
    /// scrolls back to the top.
    pub fn delete_all(&mut self) -> (r: Vec<u64>)
        requires
            form_wf(old(self)@),
        ensures
            form_wf(final(self)@),
            r@ == old(self)@.items,
            old(self)@.items.len() == 0 ==> final(self)@ == old(self)@,
            old(self)@.items.len() > 0 ==> final(self)@ == (FormView {
                items: Seq::empty(),
                focus_index: -1,
                scroll_y: 0,
                content_scrolling: false,
            }),
    {
        if self.items.len() == 0 {
            return Vec::new();
        }
        let removed = self.items.clone();
        self.items = Vec::new();
        self.focus_index = -1;
        self.scroll_y = 0;
        self.content_scrolling = false;
        proof {
            assert(self@.items =~= Seq::<u64>::empty());
        }
        removed
    }

    /// `normalizeLayoutState`: focus lands anew, preferring `preferred`
    /// (see [`normalized_focus`]); scrolling by hand stops; an empty form
    /// goes back to the top; and the scroll position is clamped to the
    /// content laid out in `rows` and moved to show the focused item (see
    /// [`scrolled_to_focus`]).
    pub fn normalize_layout(
        &mut self,
        focusable: &Vec<bool>,
        preferred: i32,
        rows: &Vec<ItemRect>,
        viewport_height: i32,
        focus_bounds: Option<(i32, i32)>,
    )
        requires
            form_wf(old(self)@),
            focusable@.len() == old(self)@.items.len(),
        ensures
            form_wf(final(self)@),
            final(self)@ == normalized_layout(
                old(self)@,
                focusable@,
                preferred as int,
                rows@,
                viewport_height,
                focus_bounds,
            ),
    {
        self.relayout(focusable, preferred);
        self.update_scroll(rows, viewport_height, focus_bounds);
    }

    /// Focus lands anew after an item changed; `focusable` tells which items
    /// can take focus now.
    pub fn item_invalidated(&mut self, focusable: &Vec<bool>)
        requires
            form_wf(old(self)@),
            focusable@.len() == old(self)@.items.len(),
        ensures
            form_wf(final(self)@),
            final(self)@ == (FormView {
                items: old(self)@.items,
                focus_index: normalized_focus(focusable@, old(self)@.focus_index),
                scroll_y: if focusable@.len() == 0 { 0 } else { old(self)@.scroll_y },
                content_scrolling: false,
            }),
    {
        let preferred = self.focus_index;
        self.relayout(focusable, preferred);
    }
}

/// A form after `normalizeLayoutState`.
pub open spec fn normalized_layout(
    v: FormView,
    focusable: Seq<bool>,
    preferred: int,
    rows: Seq<ItemRect>,
    viewport_height: i32,
    bounds: Option<(i32, i32)>,
) -> FormView {
    let refocused = FormView {
        items: v.items,
        focus_index: normalized_focus(focusable, preferred),
        scroll_y: if focusable.len() == 0 { 0 } else { v.scroll_y },
        content_scrolling: false,
    };
    FormView { scroll_y: scrolled_to_focus(refocused, rows, viewport_height, bounds), ..refocused }
}

/// After `normalizeLayoutState` focus is on an item that can take focus
/// (nowhere only when none can), an empty form has no focus, scrolling by
/// hand has stopped, and the scroll position lies within the content.
pub proof fn lemma_normalized_layout(
    v: FormView,
    focusable: Seq<bool>,
    preferred: int,
    rows: Seq<ItemRect>,
    viewport_height: i32,
    bounds: Option<(i32, i32)>,
)
    requires
        focusable.len() == v.items.len(),
    ensures
        ({
            let n = normalized_layout(v, focusable, preferred, rows, viewport_height, bounds);
            &&& n.items == v.items
            &&& -1 <= n.focus_index < focusable.len()
            &&& n.focus_index >= 0 ==> focusable[n.focus_index]
            &&& n.focus_index == -1 <==> forall|j: int| 0 <= j < focusable.len() ==> !focusable[j]
            &&& !n.content_scrolling
            &&& 0 <= n.scroll_y <= maximum_scroll(rows, nonnegative(viewport_height))
        }),
{
    lemma_normalized_focus_is_focusable(focusable, preferred);
}

/// Inserting keeps focus on the focused item while it can still take focus.
pub proof fn lemma_insert_keeps_focused_item(before: FormView, after: FormView, index: int, item: u64, focusable: Seq<bool>)
    requires
        form_wf(before),
        0 <= index <= before.items.len(),
        focusable.len() == before.items.len() + 1,
        after.items == before.items.insert(index, item),
        after.focus_index == normalized_focus(focusable, focus_after_insert(before.focus_index, index)),
        before.focus_index >= 0,
        focusable[focus_after_insert(before.focus_index, index)],
    ensures
        after.focus_index >= 0,
        after.items[after.focus_index] == before.items[before.focus_index],
{
    lemma_focusable_preference_is_kept(focusable, focus_after_insert(before.focus_index, index));
}

/// Deleting the focused item moves focus to the next focusable item when
/// there is one, and to the nearest focusable item before it otherwise.
/// `focusable` describes the items that remain; `index` is where the
/// deleted item stood.
pub proof fn lemma_delete_moves_focus(focusable: Seq<bool>, index: int)
    requires
        0 <= index <= focusable.len(),
    ensures
        ({
            let f = normalized_focus(focusable, focus_after_delete(index, index, focusable.len() as int));
            &&& index < focusable.len() && first_focusable_from(focusable, index) >= 0 ==> f
                == first_focusable_from(focusable, index)
            &&& index < focusable.len() && first_focusable_from(focusable, index) < 0 ==> f
                == last_focusable_before(focusable, index)
            &&& index == focusable.len() ==> f == last_focusable_before(focusable, index)
        }),
{
    lemma_first_focusable_from(focusable, index);
    if index == focusable.len() && index > 0 {
        lemma_first_focusable_from(focusable, index - 1);
    }
}

/// Where an item is laid out, in content coordinates.
#[derive(Debug, Clone, Copy, PartialEq, Eq, Structural)]
pub struct ItemRect {
    pub x: i32,
    pub y: i32,
    pub width: i32,
    pub height: i32,
}

/// The horizontal alignment in force for item `i`: that of the last item up
/// to `i` that names one (left 1, right 2, center 3), else left.
pub open spec fn alignment_at(layouts: Seq<i32>, i: int) -> int
    decreases i + 1,
{
    if i < 0 || i >= layouts.len() {
        1
    } else if layouts[i] & 3 != 0 {
        (layouts[i] & 3) as int
    } else {
        alignment_at(layouts, i - 1)
    }
}

/// An item is at least one pixel tall.
pub open spec fn row_height(height: i32) -> int {
    if height < 1 {
        1
    } else {
        height as int
    }
}

/// The top of item `i`: the items stack from the top of the content.
pub open spec fn row_top(heights: Seq<i32>, i: int) -> int
    decreases i,
{
    if i <= 0 {
        0
    } else {
        saturate(row_top(heights, i - 1) + row_height(heights[i - 1]))
    }
}

/// The left edge of an item of width `item_width` in a form of width `width`.
pub open spec fn row_x(width: int, item_width: int, alignment: int) -> int {
    if alignment == 2 {
        width - item_width
    } else if alignment == 3 {
        half_toward_zero(width - item_width)
    } else {
        0
    }
}

/// The rectangles of the items of a form `width` wide, given each item's
/// layout, measured width and measured height.
pub open spec fn layout_spec(layouts: Seq<i32>, widths: Seq<i32>, heights: Seq<i32>, width: i32) -> Seq<
    ItemRect,
> {
    let w = if width < 0 { 0 } else { width as int };
    Seq::new(
        layouts.len(),
        |i: int|
            ItemRect {
                x: row_x(w, widths[i] as int, alignment_at(layouts, i)) as i32,
                y: row_top(heights, i) as i32,
                width: widths[i],
                height: row_height(heights[i]) as i32,
            },
    )
}

/// Rectangles as the layout produces them: stacked from the top, each at
/// least one pixel tall.
pub open spec fn rows_valid(rows: Seq<ItemRect>) -> bool {
    forall|i: int| 0 <= i < rows.len() ==> #[trigger] rows[i].y >= 0 && rows[i].height >= 1
}

pub proof fn lemma_row_top_nonnegative(heights: Seq<i32>, i: int)
    ensures
        0 <= row_top(heights, i) <= i32::MAX,
    decreases i,
{
    if i > 0 {
        lemma_row_top_nonnegative(heights, i - 1);
    }
}

/// Lays out the items of a form `width` wide, one per row.
pub fn layout_rows(layouts: &Vec<i32>, widths: &Vec<i32>, heights: &Vec<i32>, width: i32) -> (rows: Vec<
    ItemRect,
>)
    requires
        widths@.len() == layouts@.len(),
        heights@.len() == layouts@.len(),
        forall|i: int|
            0 <= i < widths@.len() ==> #[trigger] widths@[i] >= (if width < 0 { 0 } else { width as int })
                - i32::MAX,
    ensures
        rows@ == layout_spec(layouts@, widths@, heights@, width),
        rows_valid(rows@),
{
    let w = if width < 0 {
        0
    } else {
        width
    };
    let mut rows: Vec<ItemRect> = Vec::new();
    let mut y: i32 = 0;
    let mut alignment: i32 = 1;
    let mut i: usize = 0;
    while i < layouts.len()
        invariant
            i <= layouts@.len() == widths@.len() == heights@.len(),
            w == if width < 0 { 0 } else { width as int },
            forall|k: int| 0 <= k < widths@.len() ==> #[trigger] widths@[k] >= w - i32::MAX,
            y == row_top(heights@, i as int),
            alignment == alignment_at(layouts@, i as int - 1),
            rows@ =~= layout_spec(layouts@, widths@, heights@, width).subrange(0, i as int),
            rows_valid(rows@),
        decreases layouts@.len() - i,
    {
        let layout = layouts[i];
        if layout & 3 != 0 {
            alignment = layout & 3;
        }
        let item_width = widths[i];
        let difference = w - item_width;
        let x = if alignment == 2 {
            difference
        } else if alignment == 3 {
            if difference >= 0 {
                difference / 2
            } else {
                -((-difference) / 2)
            }
        } else {
            0
        };
        let height = if heights[i] < 1 {
            1
        } else {
            heights[i]
        };
        proof {
            lemma_row_top_nonnegative(heights@, i as int);
        }
        rows.push(ItemRect { x, y, width: item_width, height });
        y = sat_add(y, height);
        i += 1;
    }
    rows
}

/// The height of the laid-out content.
pub open spec fn content_height(rows: Seq<ItemRect>) -> int {
    if rows.len() == 0 {
        0
    } else {
        saturate(rows.last().y + rows.last().height)
    }
}

/// How far content can scroll in a viewport `viewport_height` tall.
pub open spec fn maximum_scroll(rows: Seq<ItemRect>, viewport_height: int) -> int {
    let m = saturate(content_height(rows) - viewport_height);
    if m < 0 {
        0
    } else {
        m
    }
}

/// The span of the focused row that must be visible: the part the item
/// names when the row is taller than the viewport, else the whole row.
pub open spec fn focus_span(row: ItemRect, viewport_height: int, bounds: Option<(i32, i32)>) -> (int, int) {
    let (top, bottom) = if row.height > viewport_height {
        match bounds {
            Some(b) => (b.0 as int, b.1 as int),
            None => (0, row.height as int),
        }
    } else {
        (0, row.height as int)
    };
    (saturate(row.y + top), saturate(row.y + bottom))
}

/// The scroll position after the layout changed: clamped to the content,
/// and, unless the content is being scrolled by hand, moved just enough to
/// show the focused span (or its top, when it is taller than the viewport).
pub open spec fn scrolled_to_focus(
    v: FormView,
    rows: Seq<ItemRect>,
    viewport_height: i32,
    bounds: Option<(i32, i32)>,
) -> int {
    let vh = nonnegative(viewport_height);
    let m = maximum_scroll(rows, vh);
    let scroll = clamp(v.scroll_y, 0, m);
    if !v.content_scrolling && 0 <= v.focus_index < rows.len() {
        let (top, bottom) = focus_span(rows[v.focus_index], vh, bounds);
        let target = if bottom - top > vh || top < scroll {
            top
        } else if bottom > saturate(scroll + vh) {
            saturate(bottom - vh)
        } else {
            scroll
        };
        clamp(target, 0, m)
    } else {
        scroll
    }
}

fn content_height_exec(rows: &Vec<ItemRect>) -> (r: i32)
    ensures
        r == content_height(rows@),
{
    if rows.len() == 0 {
        0
    } else {
        let last = rows[rows.len() - 1];
        sat_add(last.y, last.height)
    }
}

fn maximum_scroll_exec(rows: &Vec<ItemRect>, viewport_height: i32) -> (r: i32)
    requires
        viewport_height >= 0,
    ensures
        r == maximum_scroll(rows@, viewport_height as int),
        r >= 0,
{
    let m = sat_sub(content_height_exec(rows), viewport_height);
    if m < 0 {
        0
    } else {
        m
    }
}

impl Form {
    /// Scrolls after a layout change; `rows` is the current layout,
    /// `focus_bounds` the span the focused item names when its row is taller
    /// than the viewport. See [`scrolled_to_focus`].
    pub fn update_scroll(&mut self, rows: &Vec<ItemRect>, viewport_height: i32, focus_bounds: Option<(i32, i32)>)
        requires
            form_wf(old(self)@),
        ensures
            form_wf(final(self)@),
            final(self)@ == (FormView {
                scroll_y: scrolled_to_focus(old(self)@, rows@, viewport_height, focus_bounds),
                ..old(self)@
            }),
    {
        let vh = if viewport_height < 0 {
            0
        } else {
            viewport_height
        };
        let m = maximum_scroll_exec(rows, vh);
        let mut scroll = clamp_exec(self.scroll_y, 0, m);
        if !self.content_scrolling && self.focus_index >= 0 && (self.focus_index as usize) < rows.len() {
            let row = rows[self.focus_index as usize];
            let (top, bottom) = if row.height > vh {
                match focus_bounds {
                    Some(b) => b,
                    None => (0, row.height),
                }
            } else {
                (0, row.height)
            };
            let top = sat_add(row.y, top);
            let bottom = sat_add(row.y, bottom);
            let target = if bottom as i64 - top as i64 > vh as i64 || top < scroll {
                top
            } else if bottom > sat_add(scroll, vh) {
                sat_sub(bottom, vh)
            } else {
                scroll
            };
            scroll = clamp_exec(target, 0, m);
        }
        self.scroll_y = scroll;
    }
}

/// The focused item is shown after scrolling: when its span fits in the
/// viewport and lies within the content, the viewport covers all of it.
pub proof fn lemma_focused_span_is_visible(
    v: FormView,
    rows: Seq<ItemRect>,
    viewport_height: i32,
    bounds: Option<(i32, i32)>,
)
    requires
        !v.content_scrolling,
        0 <= v.focus_index < rows.len(),
        viewport_height >= 0,
        ({
            let (top, bottom) = focus_span(rows[v.focus_index], viewport_height as int, bounds);
            &&& 0 <= top <= bottom <= content_height(rows)
            &&& bottom - top <= viewport_height
            &&& bottom < i32::MAX
        }),
    ensures
        ({
            let (top, bottom) = focus_span(rows[v.focus_index], viewport_height as int, bounds);
            let scroll = scrolled_to_focus(v, rows, viewport_height, bounds);
            scroll <= top && bottom <= scroll + viewport_height
        }),
{
}

/// What becomes of the items when the form is painted.
#[derive(Debug, Clone, Copy, PartialEq, Eq, Structural)]
pub struct PaintedItem {
    pub index: i32,
    pub x: i32,
    /// The top of the item in viewport coordinates.
    pub y: i32,
    pub width: i32,
    pub height: i32,
    pub focused: bool,
}

/// A row is painted when it overlaps the viewport.
pub open spec fn row_visible(row: ItemRect, scroll: int, viewport_height: int) -> bool {
    saturate(row.y + row.height) > scroll && row.y < saturate(scroll + viewport_height)
}

/// The painted items among `rows[0..n]`, in order.
pub open spec fn paint_list(rows: Seq<ItemRect>, n: int, scroll: int, viewport_height: int, focus_index: int) -> Seq<
    PaintedItem,
>
    decreases n,
{
    if n <= 0 {
        Seq::empty()
    } else {
        let before = paint_list(rows, n - 1, scroll, viewport_height, focus_index);
        let row = rows[n - 1];
        if row_visible(row, scroll, viewport_height) {
            before.push(
                PaintedItem {
                    index: (n - 1) as i32,
                    x: row.x,
                    y: (row.y - scroll) as i32,
                    width: row.width,
                    height: row.height,
                    focused: n - 1 == focus_index,
                },
            )
        } else {
            before
        }
    }
}

impl Form {
    /// The items to paint, in viewport coordinates, for the current scroll
    /// position and a viewport `viewport_height` tall.
    pub fn paint_plan(&self, rows: &Vec<ItemRect>, viewport_height: i32) -> (r: Vec<PaintedItem>)
        requires
            form_wf(self@),
            rows_valid(rows@),
            rows@.len() < i32::MAX,
        ensures
            r@ == paint_list(rows@, rows@.len() as int, self@.scroll_y, nonnegative(viewport_height), self@.focus_index),
    {
        let vh = if viewport_height < 0 {
            0
        } else {
            viewport_height
        };
        let bottom = sat_add(self.scroll_y, vh);
        let mut r: Vec<PaintedItem> = Vec::new();
        let mut i: usize = 0;
        while i < rows.len()
            invariant
                i <= rows@.len() < i32::MAX,
                rows_valid(rows@),
                form_wf(self@),
                vh == nonnegative(viewport_height),
                bottom == saturate(self@.scroll_y + vh),
                r@ == paint_list(rows@, i as int, self@.scroll_y, vh as int, self@.focus_index),
            decreases rows@.len() - i,
        {
            let row = rows[i];
            if sat_add(row.y, row.height) > self.scroll_y && row.y < bottom {
                r.push(
                    PaintedItem {
                        index: i as i32,
                        x: row.x,
                        y: row.y - self.scroll_y,
                        width: row.width,
                        height: row.height,
                        focused: i as i32 == self.focus_index,
                    },
                );
            }
            i += 1;
        }
        r
    }
}

/// The outcome of the scrolling a vertical key may do before the focused
/// item sees it.
#[derive(Debug, Clone, Copy, PartialEq, Eq, Structural)]
pub enum FormKeyStep {
    /// Neither a press nor a repeat: the key is ignored.
    Ignored,
    /// The key scrolled content by hand (or hit the end of it) and is done;
    /// `repaint` tells whether the view moved.
    Handled { repaint: bool },
    /// The key goes on to the focused item, then to focus movement, with
    /// this scroll context.
    Continue { viewport_height: i32, scroll: i32, maximum_scroll: i32 },
}

/// One page scrolled up or down, within `[0, maximum]`.
pub open spec fn page_scroll(scroll: int, step: int, up: bool, maximum: int) -> int {
    if up {
        let s = saturate(scroll - step);
        if s < 0 {
            0
        } else {
            s
        }
    } else {
        let s = saturate(scroll + step);
        if s > maximum {
            maximum
        } else {
            s
        }
    }
}

/// The first phase of a key on a form: what it does before the focused item
/// sees it, and the form's state afterwards.
pub open spec fn form_key_step(
    v: FormView,
    event_type: i32,
    code: i32,
    rows: Seq<ItemRect>,
    viewport_height: i32,
    bounds: Option<(i32, i32)>,
) -> (FormView, FormKeyStep) {
    let pressed = event_type == 1;
    let repeated = event_type == 3;
    if !pressed && !repeated {
        (v, FormKeyStep::Ignored)
    } else if code != KEY_UP && code != KEY_DOWN {
        (v, FormKeyStep::Continue { viewport_height: 0, scroll: 0, maximum_scroll: 0 })
    } else {
        let up = code == KEY_UP;
        let vh = nonnegative(viewport_height);
        let m = maximum_scroll(rows, vh);
        let scroll = clamp(v.scroll_y, 0, m);
        let v1 = FormView { scroll_y: scroll, ..v };
        let step = if vh < 1 { 1 } else { vh };
        let focus_row_valid = 0 <= v.focus_index < rows.len();
        let focus_visible = focus_row_valid && rows[v.focus_index].y < saturate(scroll + vh) && saturate(
            rows[v.focus_index].y + rows[v.focus_index].height,
        ) > scroll;
        if v.content_scrolling && !focus_visible {
            let new_scroll = page_scroll(scroll, step, up, m);
            if new_scroll != scroll {
                (FormView { scroll_y: new_scroll, ..v1 }, FormKeyStep::Handled { repaint: true })
            } else {
                (v1, FormKeyStep::Handled { repaint: false })
            }
        } else if focus_row_valid && rows[v.focus_index].height > vh && ({
            let (top, bottom) = focus_span(rows[v.focus_index], vh, bounds);
            bottom - top > vh
        }) {
            let (top, bottom) = focus_span(rows[v.focus_index], vh, bounds);
            let target = if up && scroll > top {
                let s = saturate(scroll - step);
                if s < top {
                    top
                } else {
                    s
                }
            } else if !up && saturate(scroll + vh) < bottom {
                let s = saturate(scroll + step);
                if s > bottom - vh {
                    bottom - vh
                } else {
                    s
                }
            } else {
                scroll
            };
            let new_scroll = clamp(target, 0, m);
            if new_scroll != scroll {
                (
                    FormView { scroll_y: new_scroll, content_scrolling: true, ..v1 },
                    FormKeyStep::Handled { repaint: true },
                )
            } else {
                (
                    v1,
                    FormKeyStep::Continue {
                        viewport_height: vh as i32,
                        scroll: scroll as i32,
                        maximum_scroll: m as i32,
                    },
                )
            }
        } else {
            (v1, FormKeyStep::Continue { viewport_height: vh as i32, scroll: scroll as i32, maximum_scroll: m as i32 })
        }
    }
}

/// Whether the focused item is offered the key: presses, and repeats of
/// the arrow keys.
pub open spec fn item_gets_key_spec(event_type: i32, code: i32) -> bool {
    event_type == 1 || code == KEY_UP || code == KEY_DOWN || code == KEY_LEFT || code == KEY_RIGHT
}

/// How focus reacts to a vertical key the focused item did not consume.
#[derive(Debug, Clone, Copy, PartialEq, Eq, Structural)]
pub enum FocusMove {
    /// Nothing to do.
    Unmoved,
    /// Focus moved to this item; the layout must be refreshed.
    Moved(i32),
    /// No item to move to: the content scrolled by a page instead.
    Scrolled,
}

/// The last phase of a key on a form: focus moves to the nearest focusable
/// item in the key's direction, or, when there is none, the content
/// scrolls by a page.
pub open spec fn form_focus_move(
    v: FormView,
    code: i32,
    focusable: Seq<bool>,
    viewport_height: i32,
    scroll: i32,
    maximum: i32,
) -> (FormView, FocusMove) {
    if code != KEY_UP && code != KEY_DOWN {
        (v, FocusMove::Unmoved)
    } else {
        let up = code == KEY_UP;
        let next = if up {
            last_focusable_before(focusable, if v.focus_index < 0 { 0 } else { v.focus_index })
        } else {
            first_focusable_from(focusable, if v.focus_index + 1 < 0 { 0 } else { v.focus_index + 1 })
        };
        if next >= 0 {
            (
                FormView { focus_index: normalized_focus(focusable, next), content_scrolling: false, ..v },
                FocusMove::Moved(next as i32),
            )
        } else {
            let step = if viewport_height < 1 { 1 } else { viewport_height as int };
            let new_scroll = page_scroll(scroll as int, step, up, maximum as int);
            if new_scroll != scroll {
                (FormView { scroll_y: new_scroll, content_scrolling: true, ..v }, FocusMove::Scrolled)
            } else {
                (v, FocusMove::Unmoved)
            }
        }
    }
}

/// Focus moves one focusable item at a time: DOWN gives it to the first
/// focusable item after the focused one, every item in between being
/// unfocusable, and UP to the last focusable item before it; the moved-to
/// item keeps the focus. Focus moves whenever such an item exists; when
/// none does, it stays where it was, and the content scrolls by one page
/// (a viewport's height, at least a pixel), or to its end when less than a
/// page remains.
pub proof fn lemma_focus_moves_to_the_nearest_focusable(
    v: FormView,
    code: i32,
    focusable: Seq<bool>,
    viewport_height: i32,
    scroll: i32,
    maximum: i32,
)
    requires
        form_wf(v),
        focusable.len() == v.items.len(),
    ensures
        ({
            let (after, r) = form_focus_move(v, code, focusable, viewport_height, scroll, maximum);
            &&& r matches FocusMove::Moved(n) ==> {
                &&& 0 <= n < focusable.len()
                &&& focusable[n as int]
                &&& after.focus_index == n
                &&& code == KEY_DOWN ==> v.focus_index < n && forall|k: int|
                    v.focus_index < k < n ==> !#[trigger] focusable[k]
                &&& code == KEY_UP ==> n < v.focus_index && forall|k: int|
                    n < k < v.focus_index ==> !#[trigger] focusable[k]
            }
            &&& code == KEY_DOWN && (exists|k: int|
                v.focus_index < k < focusable.len() && #[trigger] focusable[k]) ==> r is Moved
            &&& code == KEY_UP && (exists|k: int| 0 <= k < v.focus_index && #[trigger] focusable[k])
                ==> r is Moved
            &&& !(r is Moved) ==> after.focus_index == v.focus_index
            &&& code == KEY_DOWN && (forall|k: int| v.focus_index < k < focusable.len() ==> !#[trigger] focusable[k])
                && 0 <= scroll < maximum ==> r is Scrolled && after.scroll_y == scroll + min(
                if viewport_height < 1 { 1 } else { viewport_height as int },
                maximum - scroll,
            )
            &&& code == KEY_UP && (forall|k: int| 0 <= k < v.focus_index ==> !#[trigger] focusable[k]) && 0
                < scroll <= maximum ==> r is Scrolled && after.scroll_y == scroll - min(
                if viewport_height < 1 { 1 } else { viewport_height as int },
                scroll as int,
            )
        }),
{
    if code == KEY_UP {
        lemma_last_focusable_before(focusable, if v.focus_index < 0 { 0 } else { v.focus_index });
        let next = last_focusable_before(focusable, if v.focus_index < 0 { 0 } else { v.focus_index });
        if next >= 0 {
            lemma_focusable_preference_is_kept(focusable, next);
        }
    } else if code == KEY_DOWN {
        lemma_first_focusable_from(focusable, v.focus_index + 1);
        let next = first_focusable_from(focusable, v.focus_index + 1);
        if next >= 0 {
            lemma_focusable_preference_is_kept(focusable, next);
        }
    }
}

fn page_scroll_exec(scroll: i32, step: i32, up: bool, maximum: i32) -> (r: i32)
    ensures
        r == page_scroll(scroll as int, step as int, up, maximum as int),
{
    if up {
        let s = sat_sub(scroll, step);
        if s < 0 {
            0
        } else {
            s
        }
    } else {
        let s = sat_add(scroll, step);
        if s > maximum {
            maximum
        } else {
            s
        }
    }
}

impl Form {
    /// The first phase of a key press or repeat on the form; see
    /// [`form_key_step`]. `focus_bounds` is the span the focused item names
    /// when its row is taller than the viewport.
    pub fn key_scroll_step(
        &mut self,
        event_type: i32,
        code: i32,
        rows: &Vec<ItemRect>,
        viewport_height: i32,
        focus_bounds: Option<(i32, i32)>,
    ) -> (r: FormKeyStep)
        requires
            form_wf(old(self)@),
        ensures
            form_wf(final(self)@),
            (final(self)@, r) == form_key_step(old(self)@, event_type, code, rows@, viewport_height, focus_bounds),
    {
        let pressed = event_type == 1;
        let repeated = event_type == 3;
        if !pressed && !repeated {
            return FormKeyStep::Ignored;
        }
        if code != KEY_UP && code != KEY_DOWN {
            return FormKeyStep::Continue { viewport_height: 0, scroll: 0, maximum_scroll: 0 };
        }
        let up = code == KEY_UP;
        let vh = if viewport_height < 0 {
            0
        } else {
            viewport_height
        };
        let m = maximum_scroll_exec(rows, vh);
        let scroll = clamp_exec(self.scroll_y, 0, m);
        self.scroll_y = scroll;
        let step = if vh < 1 {
            1
        } else {
            vh
        };
        let focus_row_valid = self.focus_index >= 0 && (self.focus_index as usize) < rows.len();
        let focus_visible = focus_row_valid && rows[self.focus_index as usize].y < sat_add(scroll, vh)
            && sat_add(rows[self.focus_index as usize].y, rows[self.focus_index as usize].height)
            > scroll;
        if self.content_scrolling && !focus_visible {
            let new_scroll = page_scroll_exec(scroll, step, up, m);
            if new_scroll != scroll {
                self.scroll_y = new_scroll;
                return FormKeyStep::Handled { repaint: true };
            }
            return FormKeyStep::Handled { repaint: false };
        }
        if focus_row_valid && rows[self.focus_index as usize].height > vh {
            let row = rows[self.focus_index as usize];
            let (b0, b1) = match focus_bounds {
                Some(b) => b,
                None => (0, row.height),
            };
            let top = sat_add(row.y, b0);
            let bottom = sat_add(row.y, b1);
            if bottom as i64 - top as i64 > vh as i64 {
                let target: i64 = if up && scroll > top {
                    let s = sat_sub(scroll, step);
                    if s < top {
                        top as i64
                    } else {
                        s as i64
                    }
                } else if !up && sat_add(scroll, vh) < bottom {
                    let s = sat_add(scroll, step);
                    if (s as i64) > bottom as i64 - vh as i64 {
                        bottom as i64 - vh as i64
                    } else {
                        s as i64
                    }
                } else {
                    scroll as i64
                };
                let new_scroll: i32 = if target < 0 {
                    0
                } else if target > m as i64 {
                    m
                } else {
                    target as i32
                };
                if new_scroll != scroll {
                    self.scroll_y = new_scroll;
                    self.content_scrolling = true;
                    return FormKeyStep::Handled { repaint: true };
                }
            }
        }
        FormKeyStep::Continue { viewport_height: vh, scroll, maximum_scroll: m }
    }

    /// Whether the focused item is offered a key of this kind.
    pub fn item_gets_key(event_type: i32, code: i32) -> (r: bool)
        ensures
            r == item_gets_key_spec(event_type, code),
    {
        event_type == 1 || code == KEY_UP || code == KEY_DOWN || code == KEY_LEFT || code == KEY_RIGHT
    }

    /// Whether a key the focused item did not consume fires its default
    /// command: a press of FIRE.
    pub fn fires_default_command(event_type: i32, code: i32) -> (r: bool)
        ensures
            r == (event_type == 1 && code == KEY_FIRE),
    {
        event_type == 1 && code == KEY_FIRE
    }

    /// The last phase of a key on the form; see [`form_focus_move`]. The
    /// scroll context is the one [`Form::key_scroll_step`] returned.
    pub fn focus_move(
        &mut self,
        code: i32,
        focusable: &Vec<bool>,
        viewport_height: i32,
        scroll: i32,
        maximum_scroll: i32,
    ) -> (r: FocusMove)
        requires
            form_wf(old(self)@),
            focusable@.len() == old(self)@.items.len(),
            scroll >= 0,
            maximum_scroll >= 0,
        ensures
            form_wf(final(self)@),
            (final(self)@, r) == form_focus_move(old(self)@, code, focusable@, viewport_height, scroll, maximum_scroll),
    {
        if code != KEY_UP && code != KEY_DOWN {
            return FocusMove::Unmoved;
        }
        let up = code == KEY_UP;
        let next = if up {
            let p = if self.focus_index < 0 {
                0
            } else {
                self.focus_index as usize
            };
            last_focusable_before_exec(focusable, p)
        } else {
            let p = if self.focus_index + 1 < 0 {
                0
            } else {
                (self.focus_index + 1) as usize
            };
            first_focusable_from_exec(focusable, p)
        };
        if next >= 0 {
            proof {
                lemma_normalized_focus_is_focusable(focusable@, next as int);
            }
            self.focus_index = normalize_focus(focusable, next);
            self.content_scrolling = false;
            return FocusMove::Moved(next);
        }
        let step = if viewport_height < 1 {
            1
        } else {
            viewport_height
        };
        let new_scroll = page_scroll_exec(scroll, step, up, maximum_scroll);
        if new_scroll != scroll {
            self.scroll_y = new_scroll;
            self.content_scrolling = true;
            return FocusMove::Scrolled;
        }
        FocusMove::Unmoved
    }
}

/// Which list a command index falls in when a focused item contributes its
/// commands ahead of the screen's.
#[derive(Debug, Clone, Copy, PartialEq, Eq, Structural)]
pub enum CommandOwner {
    Item(i32),
    Screen(i32),
}

impl Form {
    /// The number of commands offered: the focused item's, then the screen's.
    pub fn command_count(screen_command_count: i32, focused_item_command_count: Option<i32>) -> (r: i32)
        requires
            0 <= screen_command_count,
            focused_item_command_count matches Some(c) ==> 0 <= c && c + screen_command_count <= i32::MAX,
        ensures
            r == screen_command_count + match focused_item_command_count {
                Some(c) => c as int,
                None => 0,
            },
    {
        match focused_item_command_count {
            Some(c) => c + screen_command_count,
            None => screen_command_count,
        }
    }

    /// Whose command `index` names: the focused item's first commands, then
    /// the screen's.
    pub fn command_owner(index: i32, focused_item_command_count: Option<i32>) -> (r: CommandOwner)
        requires
            focused_item_command_count matches Some(c) ==> 0 <= c,
        ensures
            match focused_item_command_count {
                None => r == CommandOwner::Screen(index),
                Some(c) => if index < c {
                    r == CommandOwner::Item(index)
                } else {
                    r == CommandOwner::Screen((index - c) as i32)
                },
            },
    {
        match focused_item_command_count {
            None => CommandOwner::Screen(index),
            Some(c) => if index < c {
                CommandOwner::Item(index)
            } else {
                CommandOwner::Screen(index - c)
            },
        }
    }
}

} // verus!
