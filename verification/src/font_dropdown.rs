//! A font picker: an alphabetical list of font names below a trigger, with
//! a "default font" entry first.
//!
//! Item 0 is the default entry; item `i + 1` is font `i`. Geometry stays
//! with the drawing layer, which reports where the pointer is as a
//! [`FontDropdownHit`].

use vstd::prelude::*;
use vstd::multiset::*;
use vstd::seq_lib::*;

use crate::event::{is_activation_spec, keyboard_activation, key_is, PointerKind, UiEvent};
use crate::text::owned;

verus! {

/// Rows the open list shows at once.
pub const VISIBLE_ROWS: usize = 7;

/// Name for what std's `str::to_lowercase` returns: the full Unicode
/// lower-case mapping of every character.
pub uninterp spec fn lowercase_of(s: Seq<char>) -> Seq<char>;

/// std's `str::to_lowercase`. Its result is a function of the text alone;
/// the Unicode case tables it applies are not restated here.
#[verifier::external_body]
fn std_to_lowercase(s: &str) -> (r: String)
    ensures
        r@ == lowercase_of(s@),
{
    s.to_lowercase()
}

/// `a` comes strictly before `b` in code-point order (the order of `str`'s
/// comparison).
pub open spec fn lex_lt(a: Seq<char>, b: Seq<char>) -> bool
    decreases a.len(),
{
    if a.len() == 0 {
        b.len() > 0
    } else if b.len() == 0 {
        false
    } else if a[0] != b[0] {
        (a[0] as int) < (b[0] as int)
    } else {
        lex_lt(a.drop_first(), b.drop_first())
    }
}

proof fn lemma_lex_irreflexive(a: Seq<char>)
    ensures
        !lex_lt(a, a),
    decreases a.len(),
{
    if a.len() > 0 {
        lemma_lex_irreflexive(a.drop_first());
    }
}

proof fn lemma_lex_transitive(a: Seq<char>, b: Seq<char>, c: Seq<char>)
    requires
        lex_lt(a, b),
        lex_lt(b, c),
    ensures
        lex_lt(a, c),
    decreases a.len(),
{
    if a.len() > 0 && b.len() > 0 && c.len() > 0 && a[0] == b[0] && b[0] == c[0] {
        lemma_lex_transitive(a.drop_first(), b.drop_first(), c.drop_first());
    }
}

proof fn lemma_lex_total(a: Seq<char>, b: Seq<char>)
    ensures
        lex_lt(a, b) || lex_lt(b, a) || a == b,
    decreases a.len(),
{
    if a.len() > 0 && b.len() > 0 && a[0] == b[0] {
        lemma_lex_total(a.drop_first(), b.drop_first());
        if a.drop_first() == b.drop_first() {
            assert(a =~= seq![a[0]] + a.drop_first());
            assert(b =~= seq![b[0]] + b.drop_first());
        }
    } else if a.len() == 0 && b.len() == 0 {
        assert(a =~= b);
    } else if a.len() > 0 && b.len() > 0 {
        assert((a[0] as int) != (b[0] as int));
    }
}

/// Font `a` sorts no later than font `b`: their lower-case forms compare.
pub open spec fn key_le(a: Seq<char>, b: Seq<char>) -> bool {
    !lex_lt(lowercase_of(b), lowercase_of(a))
}

proof fn lemma_key_le_transitive(a: Seq<char>, b: Seq<char>, c: Seq<char>)
    requires
        key_le(a, b),
        key_le(b, c),
    ensures
        key_le(a, c),
{
    let (ka, kb, kc) = (lowercase_of(a), lowercase_of(b), lowercase_of(c));
    if lex_lt(kc, ka) {
        lemma_lex_total(ka, kb);
        if lex_lt(ka, kb) {
            lemma_lex_transitive(kc, ka, kb);
        } else if ka == kb {
        }
    }
}

/// The names are in order of their lower-case forms.
pub open spec fn sorted_by_key(s: Seq<Seq<char>>) -> bool {
    forall|i: int, j: int| 0 <= i < j < s.len() ==> key_le(#[trigger] s[i], #[trigger] s[j])
}

/// `s` with each run of equal neighbours reduced to one element.
pub open spec fn dedup(s: Seq<Seq<char>>) -> Seq<Seq<char>>
    decreases s.len(),
{
    if s.len() <= 1 {
        s
    } else if s.last() == s[s.len() - 2] {
        dedup(s.drop_last())
    } else {
        dedup(s.drop_last()).push(s.last())
    }
}

/// The views of a list of strings.
pub open spec fn views(v: Seq<String>) -> Seq<Seq<char>> {
    v.map_values(|s: String| s@)
}

/// `out` is the font list built from `input`: the names of `input`
/// ordered by their lower-case forms (names whose lower-case forms tie come
/// in either order), then with repeated neighbours dropped.
pub open spec fn font_list(input: Seq<Seq<char>>, out: Seq<Seq<char>>) -> bool {
    exists|p: Seq<Seq<char>>|
        #![trigger dedup(p)]
        p.to_multiset() == input.to_multiset() && sorted_by_key(p) && out == dedup(p)
}

/// Whether `a` sorts strictly before `b` in code-point order.
fn lex_less(a: &String, b: &String) -> (r: bool)
    ensures
        r == lex_lt(a@, b@),
{
    let n = a.as_str().unicode_len();
    let m = b.as_str().unicode_len();
    let mut i: usize = 0;
    assert(a@.skip(0) =~= a@);
    assert(b@.skip(0) =~= b@);
    while i < n && i < m
        invariant
            n == a@.len(),
            m == b@.len(),
            i <= n,
            i <= m,
            lex_lt(a@, b@) == lex_lt(a@.skip(i as int), b@.skip(i as int)),
        decreases n - i,
    {
        let x = a.as_str().get_char(i);
        let y = b.as_str().get_char(i);
        if x != y {
            assert(a@.skip(i as int)[0] == x);
            assert(b@.skip(i as int)[0] == y);
            return (x as u32) < (y as u32);
        }
        assert(a@.skip(i as int).drop_first() =~= a@.skip(i + 1));
        assert(b@.skip(i as int).drop_first() =~= b@.skip(i + 1));
        i = i + 1;
    }
    i == n && i < m
}

proof fn lemma_dedup_prefix_step(s: Seq<Seq<char>>, i: int)
    requires
        1 <= i < s.len(),
    ensures
        dedup(s.take(i + 1)) == if s[i] == s[i - 1] {
            dedup(s.take(i))
        } else {
            dedup(s.take(i)).push(s[i])
        },
{
    assert(s.take(i + 1).drop_last() =~= s.take(i));
}

/// Removes repeated neighbours.
fn dedup_names(v: Vec<String>) -> (r: Vec<String>)
    ensures
        views(r@) == dedup(views(v@)),
{
    let ghost vv = views(v@);
    let mut out: Vec<String> = Vec::new();
    let mut i: usize = 0;
    while i < v.len()
        invariant
            i <= v.len(),
            vv == views(v@),
            views(out@) == dedup(vv.take(i as int)),
            i > 0 ==> out@.len() > 0 && out@.last()@ == vv[i - 1],
        decreases v.len() - i,
    {
        if i == 0 {
            out.push(owned(v[i].as_str()));
            assert(vv.take(1) =~= seq![vv[0]]);
            assert(views(out@) =~= seq![vv[0]]);
        } else {
            proof {
                lemma_dedup_prefix_step(vv, i as int);
            }
            let last = out.len() - 1;
            let same = out[last] == v[i];
            if !same {
                let ghost before = views(out@);
                out.push(owned(v[i].as_str()));
                assert(views(out@) =~= before.push(vv[i as int]));
            }
        }
        i = i + 1;
    }
    assert(vv.take(i as int) =~= vv);
    out
}

proof fn lemma_key_lt_le(x: Seq<char>, y: Seq<char>)
    requires
        lex_lt(lowercase_of(x), lowercase_of(y)),
    ensures
        key_le(x, y),
{
    if lex_lt(lowercase_of(y), lowercase_of(x)) {
        lemma_lex_transitive(lowercase_of(y), lowercase_of(x), lowercase_of(y));
        lemma_lex_irreflexive(lowercase_of(y));
    }
}

proof fn lemma_insert_sorted(before: Seq<Seq<char>>, j: int, x: Seq<char>)
    requires
        sorted_by_key(before),
        0 <= j <= before.len(),
        forall|k: int| 0 <= k < j ==> key_le(#[trigger] before[k], x),
        j < before.len() ==> lex_lt(lowercase_of(x), lowercase_of(before[j])),
    ensures
        sorted_by_key(before.insert(j, x)),
{
    let s2 = before.insert(j, x);
    before.insert_ensures(j, x);
    if j < before.len() {
        lemma_key_lt_le(x, before[j]);
    }
    assert forall|a: int, b: int| 0 <= a < b < s2.len() implies key_le(
        #[trigger] s2[a],
        #[trigger] s2[b],
    ) by {
        if a < j && b == j {
        } else if a < j && b > j {
            assert(s2[b] == before[b - 1]);
        } else if a == j {
            assert(s2[b] == before[b - 1]);
            if j < b - 1 {
                lemma_key_le_transitive(x, before[j], before[b - 1]);
            }
        } else if b < j {
        } else {
            assert(s2[a] == before[a - 1]);
            assert(s2[b] == before[b - 1]);
        }
    }
}

/// Sorts names by their lower-case forms.
fn sort_by_key(v: Vec<String>) -> (r: Vec<String>)
    ensures
        views(r@).to_multiset() == views(v@).to_multiset(),
        sorted_by_key(views(r@)),
{
    broadcast use group_to_multiset_ensures, group_multiset_axioms;
    let mut rest = v;
    let mut names: Vec<String> = Vec::new();
    let mut keys: Vec<String> = Vec::new();
    let ghost total = views(rest@).to_multiset();
    while rest.len() > 0
        invariant
            names@.len() == keys@.len(),
            forall|k: int| 0 <= k < keys@.len() ==> #[trigger] keys@[k]@ == lowercase_of(names@[k]@),
            sorted_by_key(views(names@)),
            views(names@).to_multiset().add(views(rest@).to_multiset()) == total,
        decreases rest.len(),
    {
        let ghost rest0 = views(rest@);
        let x = rest.pop().unwrap();
        assert(rest0 =~= views(rest@).push(x@));
        let key = std_to_lowercase(x.as_str());
        let mut j: usize = 0;
        while j < names.len() && !lex_less(&key, &keys[j])
            invariant
                j <= names@.len(),
                names@.len() == keys@.len(),
                forall|k: int| 0 <= k < keys@.len() ==> #[trigger] keys@[k]@ == lowercase_of(names@[k]@),
                key@ == lowercase_of(x@),
                forall|k: int| 0 <= k < j ==> key_le(#[trigger] views(names@)[k], x@),
            decreases names@.len() - j,
        {
            assert(views(names@)[j as int] == names@[j as int]@);
            j = j + 1;
        }
        let ghost before = views(names@);
        let ghost keys_before = keys@;
        proof {
            if j < names@.len() {
                assert(before[j as int] == names@[j as int]@);
            }
            lemma_insert_sorted(before, j as int, x@);
        }
        names.insert(j, x);
        keys.insert(j, key);
        proof {
            assert(views(names@) =~= before.insert(j as int, names@[j as int]@));
            assert forall|k: int| 0 <= k < keys@.len() implies #[trigger] keys@[k]@ == lowercase_of(
                names@[k]@,
            ) by {
                if k > j as int {
                    assert(keys@[k] == keys_before[k - 1]);
                }
            }
            to_multiset_insert(before, j as int, names@[j as int]@);
            to_multiset_build(views(rest@), names@[j as int]@);
            assert(views(names@).to_multiset().add(views(rest@).to_multiset()) =~= total);
        }
    }
    assert(views(rest@) =~= Seq::<Seq<char>>::empty());
    assert(views(rest@).to_multiset() =~= Multiset::<Seq<char>>::empty());
    assert(views(names@).to_multiset() =~= total);
    names
}

/// Where the pointer is, as the drawing layer found it.
#[derive(Clone, Copy, Debug, PartialEq, Eq, Structural)]
pub struct FontDropdownHit {
    /// The pointer is on the trigger.
    pub on_trigger: bool,
    /// The pointer is on the open list, on visible row `n` (counted from
    /// the top of the list, 0 to `VISIBLE_ROWS`).
    pub list_row: Option<usize>,
    /// For a wheel event: whether it scrolls up, and by how many rows (at
    /// least one).
    pub scroll_up: bool,
    pub scroll_step: usize,
}

/// The picker's state, as values.
pub struct FontDropdownView {
    pub fonts: Seq<Seq<char>>,
    pub selected: Option<Seq<char>>,
    pub open: bool,
    pub scroll: int,
    pub hovered: int,
}

/// A font picker.
pub struct FontDropdown {
    fonts: Vec<String>,
    selected: Option<String>,
    open: bool,
    scroll: usize,
    hovered: usize,
}

/// The view of an optional string.
pub open spec fn opt_view(o: Option<String>) -> Option<Seq<char>> {
    match o {
        Some(s) => Some(s@),
        None => None,
    }
}

impl View for FontDropdown {
    type V = FontDropdownView;

    closed spec fn view(&self) -> FontDropdownView {
        FontDropdownView {
            fonts: views(self.fonts@),
            selected: opt_view(self.selected),
            open: self.open,
            scroll: self.scroll as int,
            hovered: self.hovered as int,
        }
    }
}

/// Position of the first `x` in `s`, or `s.len()` when there is none.
pub open spec fn position_of(s: Seq<Seq<char>>, x: Seq<char>) -> int
    decreases s.len(),
{
    if s.len() == 0 {
        0
    } else if s[0] == x {
        0
    } else {
        1 + position_of(s.drop_first(), x)
    }
}

proof fn lemma_position_of(s: Seq<Seq<char>>, x: Seq<char>)
    ensures
        0 <= position_of(s, x) <= s.len(),
        position_of(s, x) < s.len() ==> s[position_of(s, x)] == x,
        forall|j: int| 0 <= j < position_of(s, x) ==> s[j] != x,
    decreases s.len(),
{
    if s.len() > 0 && s[0] != x {
        lemma_position_of(s.drop_first(), x);
        assert forall|j: int| 0 <= j < position_of(s, x) implies s[j] != x by {
            if j > 0 {
                assert(s[j] == s.drop_first()[j - 1]);
            }
        }
        if position_of(s, x) < s.len() {
            assert(s[position_of(s, x)] == s.drop_first()[position_of(s, x) - 1]);
        }
    }
}

/// Number of list items: the default entry and the fonts.
pub open spec fn item_count_spec(d: FontDropdownView) -> int {
    d.fonts.len() + 1int
}

/// `scroll` moved just enough for item `hovered` to be visible.
pub open spec fn revealed_scroll(scroll: int, hovered: int) -> int {
    if hovered < scroll {
        hovered
    } else if hovered >= scroll + VISIBLE_ROWS {
        hovered + 1 - VISIBLE_ROWS
    } else {
        scroll
    }
}

/// The picker opened: the selected font's item is hovered (the default
/// entry when no listed font is selected) and scrolled into view.
pub open spec fn opened(d: FontDropdownView) -> FontDropdownView {
    let hovered = match d.selected {
        Some(sel) => if position_of(d.fonts, sel) < d.fonts.len() {
            position_of(d.fonts, sel) + 1
        } else {
            0
        },
        None => 0,
    };
    FontDropdownView { open: true, hovered, scroll: revealed_scroll(d.scroll, hovered), ..d }
}

/// Item `index` chosen: the default entry selects no font; an index past
/// the list selects none either. The list closes.
pub open spec fn chosen(d: FontDropdownView, index: int) -> FontDropdownView {
    FontDropdownView {
        selected: if index >= 1 && index - 1 < d.fonts.len() {
            Some(d.fonts[index - 1])
        } else {
            None
        },
        open: false,
        ..d
    }
}

/// Largest scroll offset.
pub open spec fn max_scroll_spec(d: FontDropdownView) -> int {
    if item_count_spec(d) > VISIBLE_ROWS {
        item_count_spec(d) - VISIBLE_ROWS
    } else {
        0
    }
}

/// The picker after `event` with the pointer at `hit`, and whether it
/// used the event.
pub open spec fn dropdown_step(d: FontDropdownView, event: UiEvent, hit: FontDropdownHit) -> (
    FontDropdownView,
    bool,
) {
    match event {
        UiEvent::KeyInput { text } => if text@ == "\x1b"@ && d.open {
            (FontDropdownView { open: false, ..d }, true)
        } else if is_activation_spec(&event) {
            (if d.open {
                chosen(d, d.hovered)
            } else {
                opened(d)
            }, true)
        } else {
            (d, false)
        },
        UiEvent::Activate => (if d.open {
            chosen(d, d.hovered)
        } else {
            opened(d)
        }, true),
        UiEvent::CursorUp => if d.open {
            let h = if d.hovered > 0 {
                d.hovered - 1
            } else {
                0
            };
            (FontDropdownView { hovered: h, scroll: revealed_scroll(d.scroll, h), ..d }, true)
        } else {
            (d, false)
        },
        UiEvent::CursorDown => if d.open {
            let h = if d.hovered + 1 < item_count_spec(d) - 1 {
                d.hovered + 1
            } else {
                item_count_spec(d) - 1
            };
            (FontDropdownView { hovered: h, scroll: revealed_scroll(d.scroll, h), ..d }, true)
        } else {
            (d, false)
        },
        UiEvent::Pointer(PointerKind::MouseMove) => match hit.list_row {
            Some(row) if d.open => {
                let h = if d.scroll + row < item_count_spec(d) - 1 {
                    d.scroll + row
                } else {
                    item_count_spec(d) - 1
                };
                (FontDropdownView { hovered: h, ..d }, true)
            },
            _ => (d, false),
        },
        UiEvent::Pointer(PointerKind::Scroll) => if d.open && hit.list_row is Some {
            let s = if hit.scroll_up {
                if d.scroll > hit.scroll_step {
                    d.scroll - hit.scroll_step
                } else {
                    0
                }
            } else if d.scroll + hit.scroll_step < max_scroll_spec(d) {
                d.scroll + hit.scroll_step
            } else {
                max_scroll_spec(d)
            };
            (FontDropdownView { scroll: s, ..d }, true)
        } else {
            (d, false)
        },
        UiEvent::Pointer(PointerKind::MousePress) | UiEvent::Pointer(PointerKind::DoubleClick) => {
            if hit.on_trigger {
                (if d.open {
                    FontDropdownView { open: false, ..d }
                } else {
                    opened(d)
                }, true)
            } else if d.open && hit.list_row is Some {
                let index = d.scroll + hit.list_row->0;
                (if index < item_count_spec(d) {
                    chosen(d, index)
                } else {
                    d
                }, true)
            } else if d.open {
                (FontDropdownView { open: false, ..d }, true)
            } else {
                (d, false)
            }
        },
        _ => (d, false),
    }
}

/// Where a label of the picker goes.
#[derive(Clone, Copy, Debug, PartialEq, Eq, Structural)]
pub enum FontLabelSlot {
    /// The trigger's text.
    Trigger,
    /// The trigger's open/closed arrow.
    Arrow,
    /// List item `index`.
    Item(usize),
}

/// A label the picker draws.
#[derive(Clone, Debug)]
pub struct FontLabel {
    pub slot: FontLabelSlot,
    pub text: String,
    /// The font family to draw the text in, when it is not the default one.
    pub family: Option<String>,
    pub hovered: bool,
    pub selected: bool,
}

/// Text of item `index`: the default label, or the font's name.
pub open spec fn item_text(d: FontDropdownView, index: int, default_label: Seq<char>) -> Seq<char> {
    if index == 0 {
        default_label
    } else {
        d.fonts[index - 1]
    }
}

/// Whether item `index` is the selected one.
pub open spec fn is_selected_spec(d: FontDropdownView, index: int) -> bool {
    if index == 0 {
        d.selected is None
    } else {
        d.selected == Some(d.fonts[index - 1])
    }
}

/// First item past the visible ones.
pub open spec fn visible_end(d: FontDropdownView) -> int {
    if d.scroll + VISIBLE_ROWS < item_count_spec(d) {
        d.scroll + VISIBLE_ROWS
    } else {
        item_count_spec(d)
    }
}

/// Number of labels the picker draws.
pub open spec fn label_count(d: FontDropdownView) -> int {
    if d.open && d.scroll < visible_end(d) {
        2 + visible_end(d) - d.scroll
    } else {
        2
    }
}

impl FontDropdown {
    /// Limits that keep the positions within machine integers.
    pub open spec fn wf(&self) -> bool {
        &&& self@.fonts.len() + 2 * VISIBLE_ROWS < usize::MAX
        &&& 0 <= self@.hovered < item_count_spec(self@)
        &&& 0 <= self@.scroll <= item_count_spec(self@)
    }

    /// A picker over `fonts`, sorted by their lower-case forms with
    /// repeated neighbours dropped, with `selected` chosen and the list
    /// closed.
    pub fn new(fonts: Vec<String>, selected: Option<String>) -> (r: Self)
        requires
            fonts@.len() + 2 * VISIBLE_ROWS < usize::MAX,
        ensures
            r.wf(),
            font_list(views(fonts@), r@.fonts),
            r@.selected == opt_view(selected),
            !r@.open,
            r@.scroll == 0,
            r@.hovered == 0,
    {
        let ghost input = views(fonts@);
        let sorted = sort_by_key(fonts);
        let ghost p = views(sorted@);
        let deduped = dedup_names(sorted);
        proof {
            lemma_dedup_len(p);
            assert(p.to_multiset().len() == input.to_multiset().len());
            vstd::seq_lib::lemma_multiset_commutative(p, Seq::<Seq<char>>::empty());
            assert(p.len() == input.len()) by {
                vstd::seq_lib::to_multiset_len(p);
                vstd::seq_lib::to_multiset_len(input);
            }
            assert(views(deduped@).len() == deduped@.len());
        }
        FontDropdown { fonts: deduped, selected, open: false, scroll: 0, hovered: 0 }
    }

    /// The selected font, if any.
    pub fn selected(&self) -> (r: Option<&str>)
        ensures
            match r {
                Some(s) => self@.selected == Some(s@),
                None => self@.selected is None,
            },
    {
        match &self.selected {
            Some(s) => Some(s.as_str()),
            None => None,
        }
    }

    /// A copy of the selected font, if any.
    pub fn selected_owned(&self) -> (r: Option<String>)
        ensures
            opt_view(r) == self@.selected,
    {
        match &self.selected {
            Some(s) => Some(owned(s.as_str())),
            None => None,
        }
    }

    /// Whether the list is open.
    pub fn is_open(&self) -> (r: bool)
        ensures
            r == self@.open,
    {
        self.open
    }

    /// Number of rows the list shows (what the list's height is made of).
    pub fn visible_rows(&self) -> (r: usize)
        requires
            self.wf(),
        ensures
            r == if item_count_spec(self@) < VISIBLE_ROWS {
                item_count_spec(self@)
            } else {
                VISIBLE_ROWS as int
            },
    {
        let n = self.item_count();
        if n < VISIBLE_ROWS {
            n
        } else {
            VISIBLE_ROWS
        }
    }

    fn item_count(&self) -> (r: usize)
        requires
            self.wf(),
        ensures
            r == item_count_spec(self@),
    {
        self.fonts.len() + 1
    }

    fn max_scroll(&self) -> (r: usize)
        requires
            self.wf(),
        ensures
            r == max_scroll_spec(self@),
    {
        let n = self.item_count();
        if n > VISIBLE_ROWS {
            n - VISIBLE_ROWS
        } else {
            0
        }
    }

    fn reveal_hovered(&mut self)
        requires
            old(self).wf(),
        ensures
            final(self).wf(),
            final(self)@ == (FontDropdownView {
                scroll: revealed_scroll(old(self)@.scroll, old(self)@.hovered),
                ..old(self)@
            }),
    {
        if self.hovered < self.scroll {
            self.scroll = self.hovered;
        } else if self.hovered >= self.scroll + VISIBLE_ROWS {
            self.scroll = self.hovered + 1 - VISIBLE_ROWS;
        }
    }

    fn open_list(&mut self)
        requires
            old(self).wf(),
        ensures
            final(self).wf(),
            final(self)@ == opened(old(self)@),
    {
        self.open = true;
        proof {
            lemma_position_of(views(self.fonts@), self@.selected->0);
        }
        let hovered = match &self.selected {
            Some(sel) => {
                let mut i: usize = 0;
                while i < self.fonts.len() && !(self.fonts[i] == *sel)
                    invariant
                        i <= self.fonts@.len(),
                        forall|j: int| 0 <= j < i ==> views(self.fonts@)[j] != sel@,
                        0 <= position_of(views(self.fonts@), sel@) <= self.fonts@.len(),
                        position_of(views(self.fonts@), sel@) < self.fonts@.len() ==> views(
                            self.fonts@,
                        )[position_of(views(self.fonts@), sel@)] == sel@,
                        forall|j: int|
                            0 <= j < position_of(views(self.fonts@), sel@) ==> views(self.fonts@)[j]
                                != sel@,
                    decreases self.fonts@.len() - i,
                {
                    assert(views(self.fonts@)[i as int] == self.fonts@[i as int]@);
                    i = i + 1;
                }
                proof {
                    let f = position_of(views(self.fonts@), sel@);
                    if i < self.fonts@.len() {
                        assert(views(self.fonts@)[i as int] == self.fonts@[i as int]@);
                    }
                    if f < i {
                        assert(views(self.fonts@)[f] != sel@);
                    }
                }
                if i < self.fonts.len() {
                    i + 1
                } else {
                    0
                }
            },
            None => 0,
        };
        self.hovered = hovered;
        self.reveal_hovered();
    }

    fn choose_item(&mut self, index: usize)
        requires
            old(self).wf(),
        ensures
            final(self).wf(),
            final(self)@ == chosen(old(self)@, index as int),
    {
        self.selected = if index >= 1 && index - 1 < self.fonts.len() {
            Some(owned(self.fonts[index - 1].as_str()))
        } else {
            None
        };
        self.open = false;
    }

    /// Handles `event`, the pointer being at `hit`; true when the picker
    /// used it.
    pub fn handle_event(&mut self, event: &UiEvent, hit: FontDropdownHit) -> (r: bool)
        requires
            old(self).wf(),
            hit.list_row is Some ==> hit.list_row->0 <= VISIBLE_ROWS,
            old(self)@.scroll + hit.scroll_step < usize::MAX,
        ensures
            final(self).wf(),
            (final(self)@, r) == dropdown_step(old(self)@, *event, hit),
    {
        match event {
            UiEvent::KeyInput { text } => {
                if key_is(text, "\x1b") && self.open {
                    self.open = false;
                    true
                } else if keyboard_activation(event) {
                    if self.open {
                        let h = self.hovered;
                        self.choose_item(h);
                    } else {
                        self.open_list();
                    }
                    true
                } else {
                    false
                }
            },
            UiEvent::Activate => {
                if self.open {
                    let h = self.hovered;
                    self.choose_item(h);
                } else {
                    self.open_list();
                }
                true
            },
            UiEvent::CursorUp => {
                if self.open {
                    self.hovered = if self.hovered > 0 {
                        self.hovered - 1
                    } else {
                        0
                    };
                    self.reveal_hovered();
                    true
                } else {
                    false
                }
            },
            UiEvent::CursorDown => {
                if self.open {
                    let last = self.item_count() - 1;
                    self.hovered = if self.hovered + 1 < last {
                        self.hovered + 1
                    } else {
                        last
                    };
                    self.reveal_hovered();
                    true
                } else {
                    false
                }
            },
            UiEvent::Pointer(PointerKind::MouseMove) => match hit.list_row {
                Some(row) => {
                    if self.open {
                        let last = self.item_count() - 1;
                        self.hovered = if self.scroll + row < last {
                            self.scroll + row
                        } else {
                            last
                        };
                        true
                    } else {
                        false
                    }
                },
                None => false,
            },
            UiEvent::Pointer(PointerKind::Scroll) => {
                if self.open && hit.list_row.is_some() {
                    let max = self.max_scroll();
                    self.scroll = if hit.scroll_up {
                        if self.scroll > hit.scroll_step {
                            self.scroll - hit.scroll_step
                        } else {
                            0
                        }
                    } else if self.scroll + hit.scroll_step < max {
                        self.scroll + hit.scroll_step
                    } else {
                        max
                    };
                    true
                } else {
                    false
                }
            },
            UiEvent::Pointer(PointerKind::MousePress) | UiEvent::Pointer(
                PointerKind::DoubleClick,
            ) => {
                if hit.on_trigger {
                    if self.open {
                        self.open = false;
                    } else {
                        self.open_list();
                    }
                    true
                } else if self.open && hit.list_row.is_some() {
                    let row = hit.list_row.unwrap();
                    let index = self.scroll + row;
                    if index < self.item_count() {
                        self.choose_item(index);
                    }
                    true
                } else if self.open {
                    self.open = false;
                    true
                } else {
                    false
                }
            },
            _ => false,
        }
    }

    /// The labels the picker draws: the trigger's text (the selected font,
    /// drawn in that font, or `default_label`), its arrow, and, when open,
    /// the visible items with their hovered and selected marks.
    pub fn render(&self, default_label: &str) -> (r: Vec<FontLabel>)
        requires
            self.wf(),
        ensures
            r@.len() == label_count(self@),
            r@[0].slot == FontLabelSlot::Trigger,
            r@[0].text@ == match self@.selected {
                Some(s) => s,
                None => default_label@,
            },
            opt_view(r@[0].family) == self@.selected,
            !r@[0].hovered && !r@[0].selected,
            r@[1].slot == FontLabelSlot::Arrow,
            r@[1].text@ == (if self@.open {
                "\u{25b2}"@
            } else {
                "\u{25bc}"@
            }),
            r@[1].family is None,
            !r@[1].hovered && !r@[1].selected,
            forall|k: int|
                2 <= k < r@.len() ==> {
                    let index = self@.scroll + k - 2;
                    &&& #[trigger] r@[k].slot == FontLabelSlot::Item(index as usize)
                    &&& r@[k].text@ == item_text(self@, index, default_label@)
                    &&& opt_view(r@[k].family) == if index == 0 {
                        None
                    } else {
                        Some(self@.fonts[index - 1])
                    }
                    &&& r@[k].hovered == (index == self@.hovered)
                    &&& r@[k].selected == is_selected_spec(self@, index)
                },
    {
        let mut out: Vec<FontLabel> = Vec::new();
        let trigger_text = match &self.selected {
            Some(s) => owned(s.as_str()),
            None => owned(default_label),
        };
        out.push(
            FontLabel {
                slot: FontLabelSlot::Trigger,
                text: trigger_text,
                family: self.selected_owned(),
                hovered: false,
                selected: false,
            },
        );
        out.push(
            FontLabel {
                slot: FontLabelSlot::Arrow,
                text: owned(
                    if self.open {
                        "\u{25b2}"
                    } else {
                        "\u{25bc}"
                    },
                ),
                family: None,
                hovered: false,
                selected: false,
            },
        );
        if !self.open {
            return out;
        }
        let count = self.item_count();
        let end = if self.scroll + VISIBLE_ROWS < count {
            self.scroll + VISIBLE_ROWS
        } else {
            count
        };
        let mut index = self.scroll;
        while index < end
            invariant
                self.wf(),
                self@.open,
                end == visible_end(self@),
                self@.scroll <= index,
                index <= end || index == self@.scroll,
                out@.len() == 2 + index - self@.scroll,
                out@[0].slot == FontLabelSlot::Trigger,
                out@[0].text@ == match self@.selected {
                    Some(s) => s,
                    None => default_label@,
                },
                opt_view(out@[0].family) == self@.selected,
                !out@[0].hovered && !out@[0].selected,
                out@[1].slot == FontLabelSlot::Arrow,
                out@[1].text@ == "\u{25b2}"@,
                out@[1].family is None,
                !out@[1].hovered && !out@[1].selected,
                forall|k: int|
                    2 <= k < out@.len() ==> {
                        let i = self@.scroll + k - 2;
                        &&& #[trigger] out@[k].slot == FontLabelSlot::Item(i as usize)
                        &&& out@[k].text@ == item_text(self@, i, default_label@)
                        &&& opt_view(out@[k].family) == if i == 0 {
                            None
                        } else {
                            Some(self@.fonts[i - 1])
                        }
                        &&& out@[k].hovered == (i == self@.hovered)
                        &&& out@[k].selected == is_selected_spec(self@, i)
                    },
            decreases end - index,
        {
            let (text, family, selected) = if index == 0 {
                (owned(default_label), None, self.selected.is_none())
            } else {
                let font = &self.fonts[index - 1];
                let sel = match &self.selected {
                    Some(s) => *s == *font,
                    None => false,
                };
                (owned(font.as_str()), Some(owned(font.as_str())), sel)
            };
            out.push(
                FontLabel {
                    slot: FontLabelSlot::Item(index),
                    text,
                    family,
                    hovered: index == self.hovered,
                    selected,
                },
            );
            index = index + 1;
        }
        out
    }
}

proof fn lemma_dedup_len(s: Seq<Seq<char>>)
    ensures
        dedup(s).len() <= s.len(),
    decreases s.len(),
{
    if s.len() > 1 {
        lemma_dedup_len(s.drop_last());
    }
}

/// The font list never holds the same name twice in a row.
pub proof fn lemma_dedup_no_repeats(s: Seq<Seq<char>>)
    ensures
        forall|i: int| 0 <= i < dedup(s).len() - 1 ==> #[trigger] dedup(s)[i] != dedup(s)[i + 1],
        s.len() > 0 ==> dedup(s).len() > 0 && dedup(s).last() == s.last(),
    decreases s.len(),
{
    if s.len() > 1 {
        lemma_dedup_no_repeats(s.drop_last());
    }
}

/// Moving through the open list with the arrow keys keeps the hovered item
/// within the list and visible.
pub proof fn lemma_arrows_keep_hovered_visible(d: FontDropdownView, event: UiEvent, hit: FontDropdownHit)
    requires
        d.open,
        0 <= d.hovered < item_count_spec(d),
        0 <= d.scroll,
        event == UiEvent::CursorUp || event == UiEvent::CursorDown,
    ensures
        ({
            let (e, used) = dropdown_step(d, event, hit);
            &&& used
            &&& 0 <= e.hovered < item_count_spec(e)
            &&& e.scroll <= e.hovered < e.scroll + VISIBLE_ROWS
        }),
{
}

/// Choosing an item from the open list and reopening the list comes back
/// to the same item.
pub proof fn lemma_choose_then_open_hovers_choice(d: FontDropdownView, index: int)
    requires
        1 <= index < item_count_spec(d),
        forall|i: int, j: int| 0 <= i < j < d.fonts.len() ==> d.fonts[i] != d.fonts[j],
    ensures
        opened(chosen(d, index)).hovered == index,
{
    let c = chosen(d, index);
    let x = d.fonts[index - 1];
    lemma_position_of(d.fonts, x);
    let p = position_of(d.fonts, x);
    if p < index - 1 {
        assert(d.fonts[p] == x);
    }
}

} // verus!
