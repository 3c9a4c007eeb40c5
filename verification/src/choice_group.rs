//! Selection, highlight and popup state of `javax.microedition.lcdui.ChoiceGroup`.
use vstd::prelude::*;

use crate::errors::UiError;
use crate::event_queue::{KEY_CLEAR, KEY_DOWN, KEY_FIRE, KEY_UP};

verus! {

/// `javax.microedition.lcdui.Choice`: the choice types and fit policies.
pub struct Choice;

pub const EXCLUSIVE: i32 = 1;
pub const MULTIPLE: i32 = 2;
pub const IMPLICIT: i32 = 3;
pub const POPUP: i32 = 4;
pub const TEXT_WRAP_DEFAULT: i32 = 0;
pub const TEXT_WRAP_ON: i32 = 1;
pub const TEXT_WRAP_OFF: i32 = 2;

/// Bit of an item-key result: the item consumed the key.
pub const INPUT_HANDLED: i32 = 1;
/// Bit of an item-key result: the item's state changed.
pub const INPUT_CHANGED: i32 = 2;

/// The abstract state of a choice group.
pub struct ChoiceGroupView {
    pub choice_type: int,
    /// The string of each element.
    pub strings: Seq<Seq<char>>,
    /// The size of each element's image, if it has one.
    pub images: Seq<Option<(i32, i32)>>,
    /// One flag per element: whether it is selected.
    pub selected: Seq<bool>,
    pub fit_policy: int,
    /// The element the cursor is on, or -1 when there are no elements.
    pub highlighted_index: int,
    pub popup_open: bool,
}

/// `javax.microedition.lcdui.ChoiceGroup`: its elements' strings and image
/// sizes, their selection, the highlight and the popup.
pub struct ChoiceGroup {
    choice_type: i32,
    strings: Vec<Vec<char>>,
    images: Vec<Option<(i32, i32)>>,
    selected: Vec<bool>,
    fit_policy: i32,
    highlighted_index: i32,
    popup_open: bool,
}

impl View for ChoiceGroup {
    type V = ChoiceGroupView;

    closed spec fn view(&self) -> ChoiceGroupView {
        ChoiceGroupView {
            choice_type: self.choice_type as int,
            strings: self.strings@.map_values(|t: Vec<char>| t@),
            images: self.images@,
            selected: self.selected@,
            fit_policy: self.fit_policy as int,
            highlighted_index: self.highlighted_index as int,
            popup_open: self.popup_open,
        }
    }
}

/// The first index at which `s` is `true` among the first `n` flags, or -1.
pub open spec fn first_true(s: Seq<bool>, n: int) -> int
    decreases n,
{
    if n <= 0 {
        -1
    } else {
        let before = first_true(s, n - 1);
        if before >= 0 {
            before
        } else if s[n - 1] {
            n - 1
        } else {
            -1
        }
    }
}

/// The first selected index, or -1 when nothing is selected.
pub open spec fn first_selected(s: Seq<bool>) -> int {
    first_true(s, s.len() as int)
}

/// How many flags are set.
pub open spec fn count_true(s: Seq<bool>) -> nat
    decreases s.len(),
{
    if s.len() == 0 {
        0
    } else {
        count_true(s.drop_last()) + if s.last() { 1nat } else { 0nat }
    }
}

/// Exactly the element at `index` is selected.
pub open spec fn only(n: int, index: int) -> Seq<bool> {
    Seq::new(n as nat, |j: int| j == index)
}

/// A non-empty selection with exactly one selected element.
pub open spec fn single_selection(s: Seq<bool>) -> bool {
    s.len() > 0 ==> (0 <= first_selected(s) && s =~= only(s.len() as int, first_selected(s)))
}

pub open spec fn valid_choice_type(choice_type: int) -> bool {
    choice_type == EXCLUSIVE || choice_type == MULTIPLE || choice_type == POPUP
}

/// The invariant of a choice group: an exclusive or popup choice with
/// elements has exactly one selected element, the highlight is on an
/// element whenever there is one, and only a popup opens.
pub open spec fn choice_wf(v: ChoiceGroupView) -> bool {
    &&& valid_choice_type(v.choice_type)
    &&& 0 <= v.fit_policy <= 2
    &&& v.selected.len() < i32::MAX
    &&& v.strings.len() == v.selected.len()
    &&& v.images.len() == v.selected.len()
    &&& v.selected.len() == 0 ==> v.highlighted_index == -1 && !v.popup_open
    &&& v.selected.len() > 0 ==> 0 <= v.highlighted_index < v.selected.len()
    &&& v.popup_open ==> v.choice_type == POPUP
    &&& v.choice_type != MULTIPLE ==> single_selection(v.selected)
}

/// Where the highlight goes when it may have left the elements: nowhere
/// without elements; on the first element of a multiple choice, or on the
/// selected element, when there was none; else clamped to the last element.
pub open spec fn normalized_highlight(choice_type: int, selected: Seq<bool>, highlighted_index: int) -> int {
    if selected.len() == 0 {
        -1
    } else if highlighted_index < 0 {
        if choice_type == MULTIPLE {
            0
        } else {
            first_selected(selected)
        }
    } else if highlighted_index > selected.len() - 1 {
        selected.len() - 1
    } else {
        highlighted_index
    }
}

/// What a key did to a choice group: the `INPUT_*` bits, and whether the
/// item must be invalidated, with `Some(true)` when its layout changed.
#[derive(Debug, Clone, Copy, PartialEq, Eq, Structural)]
pub struct ItemKeyResult {
    pub flags: i32,
    pub invalidate: Option<bool>,
}

proof fn lemma_first_true(s: Seq<bool>, n: int)
    requires
        0 <= n <= s.len(),
    ensures
        -1 <= first_true(s, n) < n,
        first_true(s, n) == -1 <==> forall|j: int| 0 <= j < n ==> !s[j],
        first_true(s, n) >= 0 ==> s[first_true(s, n)] && forall|j: int|
            0 <= j < first_true(s, n) ==> !s[j],
    decreases n,
{
    if n > 0 {
        lemma_first_true(s, n - 1);
    }
}

proof fn lemma_first_selected_of_only(n: int, index: int)
    requires
        0 <= index < n,
    ensures
        first_selected(only(n, index)) == index,
        single_selection(only(n, index)),
{
    let s = only(n, index);
    lemma_first_true(s, n);
    let f = first_selected(s);
    if f == -1 {
        assert(s[index]);
    }
    assert(f == index);
}

proof fn lemma_single_selection_elim(s: Seq<bool>)
    requires
        single_selection(s),
        s.len() > 0,
    ensures
        0 <= first_selected(s) < s.len(),
        s[first_selected(s)],
        forall|j: int| 0 <= j < s.len() && s[j] ==> j == first_selected(s),
{
    lemma_first_true(s, s.len() as int);
    assert(s[first_selected(s)] == only(s.len() as int, first_selected(s))[first_selected(s)]);
    assert forall|j: int| 0 <= j < s.len() && s[j] implies j == first_selected(s) by {
        assert(s[j] == only(s.len() as int, first_selected(s))[j]);
    }
}

proof fn lemma_single_selection_intro(s: Seq<bool>, k: int)
    requires
        0 <= k < s.len(),
        s[k],
        forall|j: int| 0 <= j < s.len() && s[j] ==> j == k,
    ensures
        single_selection(s),
        first_selected(s) == k,
{
    lemma_first_true(s, s.len() as int);
    let f = first_selected(s);
    if f == -1 {
        assert(!s[k]);
    }
    assert(f == k);
    assert(s =~= only(s.len() as int, k));
}

proof fn lemma_count_only(n: int, index: int)
    requires
        0 <= index < n,
    ensures
        count_true(only(n, index)) == 1,
    decreases n,
{
    let s = only(n, index);
    if n - 1 > index {
        lemma_count_only(n - 1, index);
        assert(s.drop_last() =~= only(n - 1, index));
    } else {
        assert(s.drop_last() =~= Seq::new((n - 1) as nat, |j: int| false));
        lemma_count_none(s.drop_last());
    }
}

proof fn lemma_count_none(s: Seq<bool>)
    requires
        forall|j: int| 0 <= j < s.len() ==> !s[j],
    ensures
        count_true(s) == 0,
    decreases s.len(),
{
    if s.len() > 0 {
        lemma_count_none(s.drop_last());
    }
}

/// An exclusive or popup choice group with elements has exactly one
/// selected element.
pub proof fn lemma_exclusive_choice_selects_exactly_one(v: ChoiceGroupView)
    requires
        choice_wf(v),
        v.choice_type != MULTIPLE,
        v.selected.len() > 0,
    ensures
        count_true(v.selected) == 1,
        0 <= first_selected(v.selected) < v.selected.len(),
        forall|j: int|
            0 <= j < v.selected.len() ==> (v.selected[j] <==> j == first_selected(v.selected)),
{
    lemma_single_selection_elim(v.selected);
    lemma_count_only(v.selected.len() as int, first_selected(v.selected));
}

/// What creating a choice group of type `choice_type` from the element
/// strings `strings` and images `images` gives.
pub open spec fn new_choice_outcome(
    choice_type: int,
    strings: Option<Vec<Option<Vec<char>>>>,
    images: Option<Vec<Option<(i32, i32)>>>,
) -> Result<ChoiceGroupView, UiError> {
    if !valid_choice_type(choice_type) {
        Err(UiError::IllegalArgument)
    } else {
        match strings {
            None => Err(UiError::NullPointer),
            Some(ss) => {
                let n = ss@.len();
                if images matches Some(is) && is@.len() != n {
                    Err(UiError::IllegalArgument)
                } else if exists|j: int| 0 <= j < n && (#[trigger] ss@[j]) is None {
                    Err(UiError::NullPointer)
                } else {
                    Ok(
                        ChoiceGroupView {
                            choice_type,
                            strings: ss@.map_values(|o: Option<Vec<char>>| o->Some_0@),
                            images: match images {
                                Some(is) => is@,
                                None => Seq::new(n, |j: int| None::<(i32, i32)>),
                            },
                            selected: Seq::new(n, |j: int| j == 0 && choice_type != MULTIPLE),
                            fit_policy: 0,
                            highlighted_index: if n == 0 { -1 } else { 0 },
                            popup_open: false,
                        },
                    )
                }
            },
        }
    }
}

impl ChoiceGroup {
    /// A choice group of type `choice_type` whose elements have the strings
    /// `strings` and, when `images` is given, those images. The choice type
    /// is checked first, then that the string array is given, that the image
    /// array, if any, is as long, and that every string is given. The first
    /// element of an exclusive or popup choice starts selected.
    pub fn new(
        choice_type: i32,
        strings: Option<Vec<Option<Vec<char>>>>,
        images: Option<Vec<Option<(i32, i32)>>>,
    ) -> (r: Result<ChoiceGroup, UiError>)
        requires
            strings matches Some(ss) ==> ss@.len() < i32::MAX,
        ensures
            match new_choice_outcome(choice_type as int, strings, images) {
                Ok(v) => r matches Ok(g) && g@ == v && choice_wf(v),
                Err(e) => r == Err::<ChoiceGroup, UiError>(e),
            },
    {
        if choice_type != EXCLUSIVE && choice_type != MULTIPLE && choice_type != POPUP {
            return Err(UiError::IllegalArgument);
        }
        let given = match strings {
            Some(ss) => ss,
            None => {
                return Err(UiError::NullPointer);
            },
        };
        let element_count = given.len();
        match &images {
            Some(is) => {
                if is.len() != element_count {
                    return Err(UiError::IllegalArgument);
                }
            },
            None => {},
        }
        let mut texts: Vec<Vec<char>> = Vec::new();
        let mut i: usize = 0;
        while i < element_count
            invariant
                i <= element_count == given@.len(),
                strings == Some(given),
                valid_choice_type(choice_type as int),
                !(images matches Some(is) && is@.len() != element_count),
                forall|j: int| 0 <= j < i ==> (#[trigger] given@[j]) is Some,
                texts@.len() == i,
                forall|j: int| 0 <= j < i ==> (#[trigger] texts@[j])@ == given@[j]->Some_0@,
            decreases element_count - i,
        {
            match &given[i] {
                Some(t) => {
                    let copy = crate::font::copy_range(t, 0, t.len());
                    proof {
                        assert(t@.subrange(0, t@.len() as int) =~= t@);
                    }
                    texts.push(copy);
                },
                None => {
                    proof {
                        assert(given@[i as int] is None);

                    }
                    return Err(UiError::NullPointer);
                },
            }
            i += 1;
        }
        let images = match images {
            Some(is) => is,
            None => {
                let mut none: Vec<Option<(i32, i32)>> = Vec::new();
                let mut k: usize = 0;
                while k < element_count
                    invariant
                        k <= element_count,
                        none@ =~= Seq::new(k as nat, |j: int| None::<(i32, i32)>),
                    decreases element_count - k,
                {
                    none.push(None);
                    k += 1;
                }
                none
            },
        };
        let mut selected: Vec<bool> = Vec::new();
        let mut i: usize = 0;
        while i < element_count
            invariant
                i <= element_count,
                selected@ =~= Seq::new(i as nat, |j: int| j == 0 && choice_type != MULTIPLE),
            decreases element_count - i,
        {
            selected.push(i == 0 && choice_type != MULTIPLE);
            i += 1;
        }
        let g = ChoiceGroup {
            choice_type,
            strings: texts,
            images,
            selected,
            fit_policy: 0,
            highlighted_index: if element_count == 0 {
                -1
            } else {
                0
            },
            popup_open: false,
        };
        proof {
            if choice_type != MULTIPLE && element_count > 0 {
                assert(g.selected@ =~= only(element_count as int, 0));
                lemma_first_selected_of_only(element_count as int, 0);
            }
            assert(g@.strings =~= given@.map_values(|o: Option<Vec<char>>| o->Some_0@));
        }
        Ok(g)
    }

    /// The number of elements.
    pub fn size(&self) -> (r: i32)
        requires
            choice_wf(self@),
        ensures
            r == self@.selected.len(),
    {
        self.selected.len() as i32
    }

    pub fn choice_type(&self) -> (r: i32)
        ensures
            r == self@.choice_type,
    {
        self.choice_type
    }

    pub fn get_fit_policy(&self) -> (r: i32)
        ensures
            r == self@.fit_policy,
    {
        self.fit_policy
    }

    pub fn highlighted_index(&self) -> (r: i32)
        ensures
            r == self@.highlighted_index,
    {
        self.highlighted_index
    }

    pub fn is_popup_open(&self) -> (r: bool)
        ensures
            r == self@.popup_open,
    {
        self.popup_open
    }

    fn first_selected_index(&self) -> (r: i32)
        requires
            self.selected@.len() < i32::MAX,
        ensures
            r == first_selected(self@.selected),
    {
        let mut i: usize = 0;
        while i < self.selected.len()
            invariant
                i <= self.selected@.len() < i32::MAX,
                first_true(self.selected@, i as int) == -1,
            decreases self.selected@.len() - i,
        {
            if self.selected[i] {
                proof {
                    assert(first_true(self.selected@, i + 1) == i);
                    lemma_first_true_stable(self.selected@, i + 1, self.selected@.len() as int);
                }
                return i as i32;
            }
            i += 1;
        }
        -1
    }

    /// Checks that `index` names an element.
    pub fn check_index(&self, index: i32) -> (r: Result<(), UiError>)
        requires
            choice_wf(self@),
        ensures
            (0 <= index < self@.selected.len()) == (r is Ok),
            r is Err ==> r == Err::<(), UiError>(UiError::IndexOutOfBounds),
    {
        if index < 0 || index as usize >= self.selected.len() {
            Err(UiError::IndexOutOfBounds)
        } else {
            Ok(())
        }
    }
}

/// Where the highlight moves when an element is inserted at `index`.
pub open spec fn highlight_after_insert(highlighted_index: int, index: int) -> int {
    if highlighted_index < 0 {
        -1
    } else if index <= highlighted_index {
        highlighted_index + 1
    } else {
        highlighted_index
    }
}

/// The selection after deleting element `index`: an exclusive or popup
/// choice that lost its selected element selects the element that took its
/// place, or the new last element.
pub open spec fn selection_after_delete(choice_type: int, selected: Seq<bool>, index: int) -> Seq<bool> {
    let removed = selected.remove(index);
    if selected[index] && choice_type != MULTIPLE && removed.len() > 0 {
        removed.update(if index < removed.len() - 1 { index } else { removed.len() - 1 }, true)
    } else {
        removed
    }
}

/// `flags` with `false` appended up to `n` entries.
pub open spec fn padded(flags: Seq<bool>, n: int) -> Seq<bool> {
    Seq::new(n as nat, |j: int| j < flags.len() && flags[j])
}

/// The element an exclusive choice selects from an array of flags: the
/// first one set, or the first element when none is.
pub open spec fn first_flagged_or_zero(flags: Seq<bool>, n: int) -> int {
    if first_true(flags, n) >= 0 {
        first_true(flags, n)
    } else {
        0
    }
}

impl ChoiceGroup {
    fn normalized(&self, highlighted_index: i32) -> (r: i32)
        requires
            self.selected@.len() < i32::MAX,
        ensures
            r == normalized_highlight(self@.choice_type, self@.selected, highlighted_index as int),
    {
        let size = self.selected.len() as i32;
        if size == 0 {
            -1
        } else if highlighted_index < 0 {
            if self.choice_type == MULTIPLE {
                0
            } else {
                self.first_selected_index()
            }
        } else if highlighted_index > size - 1 {
            size - 1
        } else {
            highlighted_index
        }
    }

    /// Selects exactly the element at `index`; reports whether any flag changed.
    fn select_only(&mut self, index: i32) -> (changed: bool)
        requires
            0 <= index < old(self).selected@.len() < i32::MAX,
        ensures
            final(self).selected@ == only(old(self).selected@.len() as int, index as int),
            changed == (old(self).selected@ != only(old(self).selected@.len() as int, index as int)),
            final(self).choice_type == old(self).choice_type,
            final(self).fit_policy == old(self).fit_policy,
            final(self).highlighted_index == old(self).highlighted_index,
            final(self).popup_open == old(self).popup_open,
            final(self).strings == old(self).strings,
            final(self).images == old(self).images,
    {
        let n = self.selected.len();
        let mut result: Vec<bool> = Vec::new();
        let mut changed = false;
        let mut j: usize = 0;
        while j < n
            invariant
                j <= n == self.selected@.len() < i32::MAX,
                0 <= index < n,
                result@ =~= only(j as int, index as int),
                changed == exists|k: int| 0 <= k < j && self.selected@[k] != (k == index),
            decreases n - j,
        {
            let flag = j as i32 == index;
            let ghost was_changed = changed;
            if self.selected[j] != flag {
                changed = true;
            }
            result.push(flag);
            proof {
                if self.selected@[j as int] != (j == index) {
                    assert(0 <= j < j + 1 && self.selected@[j as int] != (j == index));
                }
                if !changed {
                    assert forall|k: int| 0 <= k < j + 1 implies !(self.selected@[k] != (k == index)) by {
                        if k < j {
                            assert(!was_changed);
                        }
                    }
                }
            }
            j += 1;
        }
        proof {
            let target = only(n as int, index as int);
            assert(result@ =~= target);
            if changed {
                let k = choose|k: int| 0 <= k < n && self.selected@[k] != (k == index);
                assert(self.selected@[k] != target[k]);
            } else {
                assert(self.selected@ =~= target);
            }
        }
        self.selected = result;
        changed
    }

    /// Inserts an element with the string `text` and the image `image` at
    /// `index`; the first element of an exclusive or popup choice is
    /// selected, later ones are not. The index is checked first, then that
    /// the string is given.
    pub fn insert(&mut self, index: i32, text: Option<Vec<char>>, image: Option<(i32, i32)>) -> (r: Result<
        (),
        UiError,
    >)
        requires
            choice_wf(old(self)@),
            old(self)@.selected.len() < i32::MAX - 1,
        ensures
            choice_wf(final(self)@),
            !(0 <= index <= old(self)@.selected.len()) ==> r == Err::<(), UiError>(
                UiError::IndexOutOfBounds,
            ) && final(self)@ == old(self)@,
            0 <= index <= old(self)@.selected.len() && text is None ==> r == Err::<(), UiError>(
                UiError::NullPointer,
            ) && final(self)@ == old(self)@,
            0 <= index <= old(self)@.selected.len() && text is Some ==> r is Ok && ({
                let selected = old(self)@.selected.insert(
                    index as int,
                    old(self)@.choice_type != MULTIPLE && old(self)@.selected.len() == 0,
                );
                final(self)@ == ChoiceGroupView {
                    choice_type: old(self)@.choice_type,
                    strings: old(self)@.strings.insert(index as int, text->Some_0@),
                    images: old(self)@.images.insert(index as int, image),
                    selected,
                    fit_policy: old(self)@.fit_policy,
                    highlighted_index: normalized_highlight(
                        old(self)@.choice_type,
                        selected,
                        highlight_after_insert(old(self)@.highlighted_index, index as int),
                    ),
                    popup_open: old(self)@.popup_open,
                }
            }),
    {
        let size = self.selected.len();
        if index < 0 || index as usize > size {
            return Err(UiError::IndexOutOfBounds);
        }
        let text = match text {
            Some(t) => t,
            None => {
                return Err(UiError::NullPointer);
            },
        };
        let ghost old_selected = self.selected@;
        let ghost old_strings = self.strings@;
        let flag = self.choice_type != MULTIPLE && size == 0;
        self.selected.insert(index as usize, flag);
        self.strings.insert(index as usize, text);
        self.images.insert(index as usize, image);
        proof {
            assert(self.strings@.map_values(|t: Vec<char>| t@) =~= old_strings.map_values(|t: Vec<char>| t@).insert(
                index as int,
                text@,
            ));
        }
        let shifted = if self.highlighted_index < 0 {
            -1
        } else if index <= self.highlighted_index {
            self.highlighted_index + 1
        } else {
            self.highlighted_index
        };
        proof {
            let s = self.selected@;
            if self.choice_type != MULTIPLE {
                if size == 0 {
                    lemma_single_selection_intro(s, 0);
                } else {
                    lemma_single_selection_elim(old_selected);
                    let f = first_selected(old_selected);
                    let k = if index <= f { f + 1 } else { f };
                    assert forall|j: int| 0 <= j < s.len() && s[j] implies j == k by {
                        if j < index {
                            assert(s[j] == old_selected[j]);
                        } else if j > index {
                            assert(s[j] == old_selected[j - 1]);
                        }
                    }
                    lemma_single_selection_intro(s, k);
                }
                lemma_single_selection_elim(s);
            }
        }
        self.highlighted_index = self.normalized(shifted);
        Ok(())
    }

    /// Appends an element with the string `text` and the image `image` and
    /// returns its index; the string must be given.
    pub fn append(&mut self, text: Option<Vec<char>>, image: Option<(i32, i32)>) -> (r: Result<i32, UiError>)
        requires
            choice_wf(old(self)@),
            old(self)@.selected.len() < i32::MAX - 1,
        ensures
            choice_wf(final(self)@),
            text is None ==> r == Err::<i32, UiError>(UiError::NullPointer) && final(self)@ == old(self)@,
            text is Some ==> r == Ok::<i32, UiError>(old(self)@.selected.len() as i32) && final(self)@
                == (ChoiceGroupView {
                strings: old(self)@.strings.push(text->Some_0@),
                images: old(self)@.images.push(image),
                selected: old(self)@.selected.push(
                    old(self)@.choice_type != MULTIPLE && old(self)@.selected.len() == 0,
                ),
                highlighted_index: normalized_highlight(
                    old(self)@.choice_type,
                    old(self)@.selected.push(
                        old(self)@.choice_type != MULTIPLE && old(self)@.selected.len() == 0,
                    ),
                    highlight_after_insert(old(self)@.highlighted_index, old(self)@.selected.len() as int),
                ),
                ..old(self)@
            }),
    {
        let index = self.selected.len() as i32;
        let r = self.insert(index, text, image);
        proof {
            assert(old(self)@.selected.insert(index as int, old(self)@.choice_type != MULTIPLE
                && old(self)@.selected.len() == 0) =~= old(self)@.selected.push(
                old(self)@.choice_type != MULTIPLE && old(self)@.selected.len() == 0,
            ));
            if text is Some {
                assert(old(self)@.strings.insert(index as int, text->Some_0@) =~= old(self)@.strings.push(
                    text->Some_0@,
                ));
                assert(old(self)@.images.insert(index as int, image) =~= old(self)@.images.push(image));
            }
        }
        match r {
            Ok(()) => Ok(index),
            Err(e) => Err(e),
        }
    }

    /// Deletes the element at `index`.
    pub fn delete(&mut self, index: i32) -> (r: Result<(), UiError>)
        requires
            choice_wf(old(self)@),
        ensures
            choice_wf(final(self)@),
            !(0 <= index < old(self)@.selected.len()) ==> r == Err::<(), UiError>(
                UiError::IndexOutOfBounds,
            ) && final(self)@ == old(self)@,
            0 <= index < old(self)@.selected.len() ==> r is Ok && ({
                let selected = selection_after_delete(
                    old(self)@.choice_type,
                    old(self)@.selected,
                    index as int,
                );
                final(self)@ == ChoiceGroupView {
                    choice_type: old(self)@.choice_type,
                    strings: old(self)@.strings.remove(index as int),
                    images: old(self)@.images.remove(index as int),
                    selected,
                    fit_policy: old(self)@.fit_policy,
                    highlighted_index: normalized_highlight(
                        old(self)@.choice_type,
                        selected,
                        if old(self)@.highlighted_index > index {
                            old(self)@.highlighted_index - 1
                        } else {
                            old(self)@.highlighted_index
                        },
                    ),
                    popup_open: old(self)@.popup_open && selected.len() > 0,
                }
            }),
    {
        if index < 0 || index as usize >= self.selected.len() {
            return Err(UiError::IndexOutOfBounds);
        }
        let ghost old_selected = self.selected@;
        let ghost old_strings = self.strings@;
        let was_selected = self.selected.remove(index as usize);
        self.strings.remove(index as usize);
        self.images.remove(index as usize);
        proof {
            assert(self.strings@.map_values(|t: Vec<char>| t@) =~= old_strings.map_values(|t: Vec<char>| t@).remove(
                index as int,
            ));
        }
        let size = self.selected.len();
        let ghost removed = self.selected@;
        if was_selected && self.choice_type != MULTIPLE && size > 0 {
            let replacement = if (index as usize) < size - 1 {
                index as usize
            } else {
                size - 1
            };
            self.selected.set(replacement, true);
        }
        proof {
            let s = self.selected@;
            assert(s == selection_after_delete(self.choice_type as int, old_selected, index as int));
            if self.choice_type != MULTIPLE && size > 0 {
                lemma_single_selection_elim(old_selected);
                let f = first_selected(old_selected);
                if was_selected {
                    assert(f == index);
                    let k = if index < size - 1 { index as int } else { size - 1 };
                    assert forall|j: int| 0 <= j < s.len() && s[j] implies j == k by {
                        if j != k {
                            if j < index {
                                assert(removed[j] == old_selected[j]);
                            } else {
                                assert(removed[j] == old_selected[j + 1]);
                            }
                        }
                    }
                    lemma_single_selection_intro(s, k);
                } else {
                    let k = if f < index { f } else { f - 1 };
                    assert(f != index);
                    assert forall|j: int| 0 <= j < s.len() && s[j] implies j == k by {
                        if j < index {
                            assert(s[j] == old_selected[j]);
                        } else {
                            assert(s[j] == old_selected[j + 1]);
                        }
                    }
                    assert(s[k]);
                    lemma_single_selection_intro(s, k);
                }
                lemma_single_selection_elim(s);
            }
        }
        let shifted = if self.highlighted_index > index {
            self.highlighted_index - 1
        } else {
            self.highlighted_index
        };
        self.highlighted_index = self.normalized(shifted);
        if size == 0 {
            self.popup_open = false;
        }
        Ok(())
    }

    /// Deletes every element.
    pub fn delete_all(&mut self)
        requires
            choice_wf(old(self)@),
        ensures
            choice_wf(final(self)@),
            final(self)@ == (ChoiceGroupView {
                choice_type: old(self)@.choice_type,
                strings: Seq::empty(),
                images: Seq::empty(),
                selected: Seq::empty(),
                fit_policy: old(self)@.fit_policy,
                highlighted_index: -1,
                popup_open: false,
            }),
    {
        self.selected = Vec::new();
        self.strings = Vec::new();
        self.images = Vec::new();
        self.highlighted_index = -1;
        self.popup_open = false;
        proof {
            assert(self@.selected =~= Seq::<bool>::empty());
            assert(self@.strings =~= Seq::<Seq<char>>::empty());
            assert(self@.images =~= Seq::<Option<(i32, i32)>>::empty());
        }
    }

    /// Replaces the string and image of the element at `index`; its
    /// selection stays. The index is checked first, then that the string
    /// is given.
    pub fn set(&mut self, index: i32, text: Option<Vec<char>>, image: Option<(i32, i32)>) -> (r: Result<
        (),
        UiError,
    >)
        requires
            choice_wf(old(self)@),
        ensures
            choice_wf(final(self)@),
            !(0 <= index < old(self)@.selected.len()) ==> r == Err::<(), UiError>(
                UiError::IndexOutOfBounds,
            ) && final(self)@ == old(self)@,
            0 <= index < old(self)@.selected.len() && text is None ==> r == Err::<(), UiError>(
                UiError::NullPointer,
            ) && final(self)@ == old(self)@,
            0 <= index < old(self)@.selected.len() && text is Some ==> r is Ok && final(self)@ == (
            ChoiceGroupView {
                strings: old(self)@.strings.update(index as int, text->Some_0@),
                images: old(self)@.images.update(index as int, image),
                ..old(self)@
            }),
    {
        if index < 0 || index as usize >= self.selected.len() {
            return Err(UiError::IndexOutOfBounds);
        }
        let text = match text {
            Some(t) => t,
            None => {
                return Err(UiError::NullPointer);
            },
        };
        let ghost old_strings = self.strings@;
        self.strings.set(index as usize, text);
        self.images.set(index as usize, image);
        proof {
            assert(self.strings@.map_values(|t: Vec<char>| t@) =~= old_strings.map_values(|t: Vec<char>| t@).update(
                index as int,
                text@,
            ));
        }
        Ok(())
    }

    /// The string of the element at `index`.
    pub fn get_string(&self, index: i32) -> (r: Result<Vec<char>, UiError>)
        requires
            choice_wf(self@),
        ensures
            0 <= index < self@.selected.len() ==> r is Ok && r->Ok_0@ == self@.strings[index as int],
            !(0 <= index < self@.selected.len()) ==> r is Err && r->Err_0 == UiError::IndexOutOfBounds,
    {
        if index < 0 || index as usize >= self.selected.len() {
            return Err(UiError::IndexOutOfBounds);
        }
        let t = &self.strings[index as usize];
        let copy = crate::font::copy_range(t, 0, t.len());
        proof {
            assert(t@.subrange(0, t@.len() as int) =~= t@);
        }
        Ok(copy)
    }

    /// The image size of the element at `index`, if it has an image.
    pub fn get_image(&self, index: i32) -> (r: Result<Option<(i32, i32)>, UiError>)
        requires
            choice_wf(self@),
        ensures
            0 <= index < self@.selected.len() ==> r == Ok::<Option<(i32, i32)>, UiError>(
                self@.images[index as int],
            ),
            !(0 <= index < self@.selected.len()) ==> r == Err::<Option<(i32, i32)>, UiError>(
                UiError::IndexOutOfBounds,
            ),
    {
        if index < 0 || index as usize >= self.selected.len() {
            return Err(UiError::IndexOutOfBounds);
        }
        Ok(self.images[index as usize])
    }

    /// Whether the element at `index` is selected.
    pub fn is_selected(&self, index: i32) -> (r: Result<bool, UiError>)
        requires
            choice_wf(self@),
        ensures
            0 <= index < self@.selected.len() ==> r == Ok::<bool, UiError>(self@.selected[index as int]),
            !(0 <= index < self@.selected.len()) ==> r == Err::<bool, UiError>(UiError::IndexOutOfBounds),
    {
        if index < 0 || index as usize >= self.selected.len() {
            return Err(UiError::IndexOutOfBounds);
        }
        Ok(self.selected[index as usize])
    }

    /// The selected element of an exclusive or popup choice, or -1 (always
    /// -1 for a multiple choice).
    pub fn get_selected_index(&self) -> (r: i32)
        requires
            choice_wf(self@),
        ensures
            r == if self@.choice_type == MULTIPLE {
                -1
            } else {
                first_selected(self@.selected)
            },
    {
        if self.choice_type == MULTIPLE {
            return -1;
        }
        self.first_selected_index()
    }

    /// Fills an array of `array_length` flags with the selection (the
    /// entries past the elements are cleared) and counts the selected
    /// elements.
    pub fn get_selected_flags(&self, array_length: usize) -> (r: Result<(Vec<bool>, i32), UiError>)
        requires
            choice_wf(self@),
        ensures
            array_length < self@.selected.len() ==> r == Err::<(Vec<bool>, i32), UiError>(
                UiError::IllegalArgument,
            ),
            array_length >= self@.selected.len() ==> (r matches Ok((flags, count)) && flags@ == padded(
                self@.selected,
                array_length as int,
            ) && count == count_true(self@.selected)),
    {
        let size = self.selected.len();
        if array_length < size {
            return Err(UiError::IllegalArgument);
        }
        let mut flags: Vec<bool> = Vec::new();
        let mut count: i32 = 0;
        let mut j: usize = 0;
        while j < array_length
            invariant
                j <= array_length,
                size == self.selected@.len() <= array_length,
                size < i32::MAX,
                flags@ =~= padded(self.selected@, j as int),
                count == count_true(self.selected@.subrange(0, if j < size { j as int } else { size as int })),
                count <= j,
            decreases array_length - j,
        {
            if j < size {
                let flag = self.selected[j];
                flags.push(flag);
                proof {
                    let t = self.selected@.subrange(0, j + 1);
                    assert(t.drop_last() =~= self.selected@.subrange(0, j as int));
                }
                if flag {
                    count += 1;
                }
            } else {
                flags.push(false);
            }
            j += 1;
        }
        proof {
            assert(self.selected@.subrange(0, size as int) =~= self.selected@);
        }
        Ok((flags, count))
    }

    /// Selects or deselects the element at `index` and reports whether the
    /// selection changed. In an exclusive or popup choice, selecting an
    /// element deselects the others and deselecting does nothing.
    pub fn set_selected_index(&mut self, index: i32, selected: bool) -> (r: Result<bool, UiError>)
        requires
            choice_wf(old(self)@),
        ensures
            choice_wf(final(self)@),
            final(self)@.choice_type == old(self)@.choice_type,
            final(self)@.fit_policy == old(self)@.fit_policy,
            final(self)@.highlighted_index == old(self)@.highlighted_index,
            final(self)@.popup_open == old(self)@.popup_open,
            final(self)@.strings == old(self)@.strings,
            final(self)@.images == old(self)@.images,
            !(0 <= index < old(self)@.selected.len()) ==> r == Err::<bool, UiError>(
                UiError::IndexOutOfBounds,
            ) && final(self)@ == old(self)@,
            0 <= index < old(self)@.selected.len() ==> ({
                let s = old(self)@.selected;
                let new_selected = if old(self)@.choice_type == MULTIPLE {
                    s.update(index as int, selected)
                } else if selected {
                    only(s.len() as int, index as int)
                } else {
                    s
                };
                &&& final(self)@.selected == new_selected
                &&& r == Ok::<bool, UiError>(new_selected != s)
            }),
    {
        if index < 0 || index as usize >= self.selected.len() {
            return Err(UiError::IndexOutOfBounds);
        }
        if self.choice_type == MULTIPLE {
            let old_flag = self.selected[index as usize];
            self.selected.set(index as usize, selected);
            proof {
                if old_flag == selected {
                    assert(self.selected@ =~= old(self)@.selected);
                } else {
                    assert(self.selected@[index as int] != old(self)@.selected[index as int]);
                }
            }
            Ok(old_flag != selected)
        } else if selected {
            let changed = self.select_only(index);
            proof {
                lemma_first_selected_of_only(self.selected@.len() as int, index as int);
            }
            Ok(changed)
        } else {
            Ok(false)
        }
    }

    /// Sets the selection from an array of flags and reports whether it
    /// changed. An exclusive or popup choice selects the first flagged
    /// element, or the first element when none is flagged.
    pub fn set_selected_flags(&mut self, flags: &[bool]) -> (r: Result<bool, UiError>)
        requires
            choice_wf(old(self)@),
        ensures
            choice_wf(final(self)@),
            final(self)@.choice_type == old(self)@.choice_type,
            final(self)@.fit_policy == old(self)@.fit_policy,
            final(self)@.highlighted_index == old(self)@.highlighted_index,
            final(self)@.popup_open == old(self)@.popup_open,
            final(self)@.strings == old(self)@.strings,
            final(self)@.images == old(self)@.images,
            flags@.len() < old(self)@.selected.len() ==> r == Err::<bool, UiError>(
                UiError::IllegalArgument,
            ) && final(self)@ == old(self)@,
            flags@.len() >= old(self)@.selected.len() ==> ({
                let s = old(self)@.selected;
                let n = s.len() as int;
                let new_selected = if old(self)@.choice_type == MULTIPLE {
                    flags@.subrange(0, n)
                } else if n > 0 {
                    only(n, first_flagged_or_zero(flags@, n))
                } else {
                    s
                };
                &&& final(self)@.selected == new_selected
                &&& r == Ok::<bool, UiError>(new_selected != s)
            }),
    {
        let size = self.selected.len();
        if flags.len() < size {
            return Err(UiError::IllegalArgument);
        }
        if self.choice_type == MULTIPLE {
            let mut result: Vec<bool> = Vec::new();
            let mut changed = false;
            let mut j: usize = 0;
            while j < size
                invariant
                    j <= size == self.selected@.len() <= flags@.len(),
                    result@ =~= flags@.subrange(0, j as int),
                    changed == exists|k: int| 0 <= k < j && self.selected@[k] != flags@[k],
                decreases size - j,
            {
                if self.selected[j] != flags[j] {
                    changed = true;
                }
                result.push(flags[j]);
                j += 1;
            }
            proof {
                if changed {
                    let k = choose|k: int| 0 <= k < size && self.selected@[k] != flags@[k];
                    assert(self.selected@[k] != result@[k]);
                } else {
                    assert(self.selected@ =~= result@);
                }
            }
            self.selected = result;
            Ok(changed)
        } else if size > 0 {
            let mut position: usize = 0;
            let mut found = false;
            while position < size && !found
                invariant
                    position <= size <= flags@.len(),
                    found ==> position < size && flags@[position as int] && first_true(flags@, position + 1) == position,
                    !found ==> first_true(flags@, position as int) == -1,
                decreases size - position + if found { 0int } else { 1int },
            {
                if flags[position] {
                    found = true;
                } else {
                    position += 1;
                }
            }
            let target = if found {
                position
            } else {
                0
            };
            proof {
                if found {
                    lemma_first_true_stable(flags@, position + 1, size as int);
                }
                assert(target == first_flagged_or_zero(flags@, size as int));
            }
            let changed = self.select_only(target as i32);
            proof {
                lemma_first_selected_of_only(size as int, target as int);
            }
            Ok(changed)
        } else {
            Ok(false)
        }
    }

    /// Sets how element texts wrap: 0 (default), 1 (wrap) or 2 (no wrap).
    pub fn set_fit_policy(&mut self, fit_policy: i32) -> (r: Result<(), UiError>)
        requires
            choice_wf(old(self)@),
        ensures
            choice_wf(final(self)@),
            0 <= fit_policy <= 2 ==> r is Ok && final(self)@ == (ChoiceGroupView {
                fit_policy: fit_policy as int,
                ..old(self)@
            }),
            !(0 <= fit_policy <= 2) ==> r == Err::<(), UiError>(UiError::IllegalArgument)
                && final(self)@ == old(self)@,
    {
        if fit_policy < 0 || fit_policy > 2 {
            return Err(UiError::IllegalArgument);
        }
        self.fit_policy = fit_policy;
        Ok(())
    }

    /// Whether the choice group can take focus: when it has elements or
    /// item commands.
    pub fn is_focusable(&self, has_item_commands: bool) -> (r: bool)
        ensures
            r == (self@.selected.len() > 0 || has_item_commands),
    {
        self.selected.len() > 0 || has_item_commands
    }
}

/// What a key does to a choice group: the new state and the key result.
///
/// A closed popup opens on FIRE with the highlight on the selected element.
/// An open popup moves its highlight with UP and DOWN (consuming them even
/// at its ends), selects the highlighted element and closes on FIRE, and
/// closes unchanged on CLEAR. An inline choice moves its highlight with UP
/// and DOWN and leaves them unhandled at its ends; FIRE toggles the element
/// of a multiple choice and selects the element of an exclusive choice.
pub open spec fn choice_key(v: ChoiceGroupView, key: i32) -> (ChoiceGroupView, ItemKeyResult) {
    let n = v.selected.len() as int;
    let s = v.selected;
    let h = v.highlighted_index;
    let ignored = ItemKeyResult { flags: 0, invalidate: None };
    if n == 0 {
        (v, ignored)
    } else if v.choice_type == POPUP {
        if !v.popup_open {
            if key != KEY_FIRE {
                (v, ignored)
            } else {
                (
                    ChoiceGroupView {
                        highlighted_index: normalized_highlight(v.choice_type, s, first_selected(s)),
                        popup_open: true,
                        ..v
                    },
                    ItemKeyResult { flags: INPUT_HANDLED, invalidate: Some(true) },
                )
            }
        } else if key == KEY_UP || key == KEY_DOWN {
            let new_h = if key == KEY_UP {
                if h - 1 < 0 { 0 } else { h - 1 }
            } else {
                if h + 1 > n - 1 { n - 1 } else { h + 1 }
            };
            if new_h != h {
                (
                    ChoiceGroupView { highlighted_index: new_h, ..v },
                    ItemKeyResult { flags: INPUT_HANDLED, invalidate: Some(false) },
                )
            } else {
                (v, ItemKeyResult { flags: INPUT_HANDLED, invalidate: None })
            }
        } else if key == KEY_FIRE {
            let s2 = only(n, h);
            (
                ChoiceGroupView {
                    selected: s2,
                    popup_open: false,
                    highlighted_index: normalized_highlight(v.choice_type, s2, h),
                    ..v
                },
                ItemKeyResult {
                    flags: if s2 != s { INPUT_HANDLED | INPUT_CHANGED } else { INPUT_HANDLED },
                    invalidate: Some(true),
                },
            )
        } else if key == KEY_CLEAR {
            (
                ChoiceGroupView {
                    highlighted_index: normalized_highlight(v.choice_type, s, first_selected(s)),
                    popup_open: false,
                    ..v
                },
                ItemKeyResult { flags: INPUT_HANDLED, invalidate: Some(true) },
            )
        } else {
            (v, ignored)
        }
    } else if key == KEY_UP || key == KEY_DOWN {
        let new_h = if key == KEY_UP { h - 1 } else { h + 1 };
        if new_h < 0 || new_h >= n {
            (v, ignored)
        } else {
            (
                ChoiceGroupView { highlighted_index: new_h, ..v },
                ItemKeyResult { flags: INPUT_HANDLED, invalidate: Some(false) },
            )
        }
    } else if key != KEY_FIRE {
        (v, ignored)
    } else if v.choice_type == MULTIPLE {
        (
            ChoiceGroupView { selected: s.update(h, !s[h]), ..v },
            ItemKeyResult { flags: INPUT_HANDLED | INPUT_CHANGED, invalidate: Some(false) },
        )
    } else if s[h] {
        (v, ItemKeyResult { flags: INPUT_HANDLED, invalidate: None })
    } else {
        (
            ChoiceGroupView { selected: only(n, h), ..v },
            ItemKeyResult { flags: INPUT_HANDLED | INPUT_CHANGED, invalidate: Some(false) },
        )
    }
}

impl ChoiceGroup {
    /// Handles a key while the choice group has focus; see [`choice_key`].
    pub fn handle_item_key(&mut self, key: i32) -> (r: ItemKeyResult)
        requires
            choice_wf(old(self)@),
        ensures
            choice_wf(final(self)@),
            (final(self)@, r) == choice_key(old(self)@, key),
    {
        let size = self.selected.len() as i32;
        if size == 0 {
            return ItemKeyResult { flags: 0, invalidate: None };
        }
        let highlighted_index = self.highlighted_index;
        if self.choice_type == POPUP {
            if !self.popup_open {
                if key != KEY_FIRE {
                    return ItemKeyResult { flags: 0, invalidate: None };
                }
                let selected_index = self.first_selected_index();
                self.highlighted_index = self.normalized(selected_index);
                self.popup_open = true;
                return ItemKeyResult { flags: INPUT_HANDLED, invalidate: Some(true) };
            }
            if key == KEY_UP || key == KEY_DOWN {
                let new_highlight = if key == KEY_UP {
                    if highlighted_index - 1 < 0 {
                        0
                    } else {
                        highlighted_index - 1
                    }
                } else {
                    if highlighted_index + 1 > size - 1 {
                        size - 1
                    } else {
                        highlighted_index + 1
                    }
                };
                if new_highlight != highlighted_index {
                    self.highlighted_index = new_highlight;
                    return ItemKeyResult { flags: INPUT_HANDLED, invalidate: Some(false) };
                }
                return ItemKeyResult { flags: INPUT_HANDLED, invalidate: None };
            }
            if key == KEY_FIRE {
                let changed = self.select_only(highlighted_index);
                proof {
                    lemma_first_selected_of_only(size as int, highlighted_index as int);
                }
                self.popup_open = false;
                self.highlighted_index = self.normalized(highlighted_index);
                return ItemKeyResult {
                    flags: if changed {
                        INPUT_HANDLED | INPUT_CHANGED
                    } else {
                        INPUT_HANDLED
                    },
                    invalidate: Some(true),
                };
            }
            if key == KEY_CLEAR {
                let selected_index = self.first_selected_index();
                self.highlighted_index = self.normalized(selected_index);
                self.popup_open = false;
                return ItemKeyResult { flags: INPUT_HANDLED, invalidate: Some(true) };
            }
            return ItemKeyResult { flags: 0, invalidate: None };
        }
        if key == KEY_UP || key == KEY_DOWN {
            let new_highlight = if key == KEY_UP {
                highlighted_index - 1
            } else {
                highlighted_index + 1
            };
            if new_highlight < 0 || new_highlight >= size {
                return ItemKeyResult { flags: 0, invalidate: None };
            }
            self.highlighted_index = new_highlight;
            return ItemKeyResult { flags: INPUT_HANDLED, invalidate: Some(false) };
        }
        if key != KEY_FIRE {
            return ItemKeyResult { flags: 0, invalidate: None };
        }
        let index = highlighted_index as usize;
        let selected = self.selected[index];
        if self.choice_type == MULTIPLE {
            self.selected.set(index, !selected);
            return ItemKeyResult { flags: INPUT_HANDLED | INPUT_CHANGED, invalidate: Some(false) };
        }
        if selected {
            return ItemKeyResult { flags: INPUT_HANDLED, invalidate: None };
        }
        let changed = self.select_only(highlighted_index);
        proof {
            lemma_first_selected_of_only(size as int, highlighted_index as int);
            assert(old(self)@.selected[highlighted_index as int] != self@.selected[highlighted_index as int]);
        }
        ItemKeyResult { flags: INPUT_HANDLED | INPUT_CHANGED, invalidate: Some(false) }
    }
}

proof fn lemma_first_true_stable(s: Seq<bool>, n: int, m: int)
    requires
        0 <= n <= m <= s.len(),
        first_true(s, n) >= 0,
    ensures
        first_true(s, m) == first_true(s, n),
    decreases m - n,
{
    if m > n {
        lemma_first_true_stable(s, n, m - 1);
    }
}

/// `net.wie.ChoiceElement`: one element of a choice: its text, the size
/// of the snapshot taken of its image, and whether it is selected.
pub struct ChoiceElement {
    pub text: Vec<char>,
    pub image: Option<(i32, i32)>,
    pub selected: bool,
}

impl ChoiceElement {
    pub fn new(text: Vec<char>, image: Option<(i32, i32)>, selected: bool) -> (r: ChoiceElement)
        ensures
            r.text@ == text@,
            r.image == image,
            r.selected == selected,
    {
        ChoiceElement { text, image, selected }
    }
}

} // verus!
