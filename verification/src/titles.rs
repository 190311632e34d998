//! Which enumerated top-level windows make the running-windows list: a
//! window is listed exactly when the host reported it visible and its
//! title is more than white space. The traversal itself happens in the
//! surrounding application; it hands this module one entry per window.

use vstd::prelude::*;

verus! {

/// One top-level window as the host enumeration reports it.
pub struct WindowEntry {
    pub visible: bool,
    pub title: String,
}

/// Ghost image of a [`WindowEntry`].
pub ghost struct WindowEntryView {
    pub visible: bool,
    pub title: Seq<char>,
}

impl View for WindowEntry {
    type V = WindowEntryView;

    open spec fn view(&self) -> WindowEntryView {
        WindowEntryView { visible: self.visible, title: self.title@ }
    }
}

impl DeepView for WindowEntry {
    type V = WindowEntryView;

    open spec fn deep_view(&self) -> WindowEntryView {
        self@
    }
}

/// The characters that trimming a title removes: the white space set of
/// the host's text handling.
pub open spec fn is_space(c: char) -> bool {
    c == ' ' || c == '\t' || c == '\n' || c == '\r' || c == '\u{000B}' || c == '\u{000C}' || c
        == '\u{0085}' || c == '\u{00A0}' || c == '\u{1680}' || c == '\u{2000}' || c == '\u{2001}'
        || c == '\u{2002}' || c == '\u{2003}' || c == '\u{2004}' || c == '\u{2005}' || c
        == '\u{2006}' || c == '\u{2007}' || c == '\u{2008}' || c == '\u{2009}' || c == '\u{200A}'
        || c == '\u{2028}' || c == '\u{2029}' || c == '\u{202F}' || c == '\u{205F}' || c
        == '\u{3000}'
}

/// A title that trimming would empty: nothing but white space.
pub open spec fn is_blank(s: Seq<char>) -> bool {
    forall|i: int| 0 <= i < s.len() ==> is_space(#[trigger] s[i])
}

/// Whether one enumerated window belongs in the list.
pub open spec fn is_listed(e: WindowEntryView) -> bool {
    e.visible && !is_blank(e.title)
}

/// The titles the enumeration yields: listed windows only, in
/// enumeration order.
pub open spec fn visible_titles(entries: Seq<WindowEntryView>) -> Seq<Seq<char>>
    decreases entries.len(),
{
    if entries.len() == 0 {
        Seq::empty()
    } else {
        let rest = visible_titles(entries.drop_last());
        if is_listed(entries.last()) {
            rest.push(entries.last().title)
        } else {
            rest
        }
    }
}

/// A title stands in the filtered list exactly when some entry carries
/// it with the window visible and the title not blank.
pub proof fn lemma_visible_titles_membership(entries: Seq<WindowEntryView>, t: Seq<char>)
    ensures
        visible_titles(entries).contains(t) <==> exists|k: int|
            0 <= k < entries.len() && is_listed(#[trigger] entries[k]) && entries[k].title == t,
    decreases entries.len(),
{
    if entries.len() > 0 {
        lemma_visible_titles_membership(entries.drop_last(), t);
        let whole = visible_titles(entries);
        let rest = visible_titles(entries.drop_last());
        if whole.contains(t) {
            let k = choose|k: int| 0 <= k < whole.len() && whole[k] == t;
            if is_listed(entries.last()) && k == whole.len() - 1 {
                assert(entries[entries.len() - 1].title == t);
            } else {
                assert(rest[k] == t);
                assert(rest.contains(t));
                let j = choose|j: int|
                    0 <= j < entries.drop_last().len() && is_listed(
                        #[trigger] entries.drop_last()[j],
                    ) && entries.drop_last()[j].title == t;
                assert(entries[j] == entries.drop_last()[j]);
            }
        }
        if exists|k: int|
            0 <= k < entries.len() && is_listed(#[trigger] entries[k]) && entries[k].title == t {
            let k = choose|k: int|
                0 <= k < entries.len() && is_listed(#[trigger] entries[k]) && entries[k].title
                    == t;
            if k == entries.len() - 1 {
                assert(whole[whole.len() - 1] == t);
            } else {
                assert(entries.drop_last()[k] == entries[k]);
                assert(rest.contains(t));
                let j = choose|j: int| 0 <= j < rest.len() && rest[j] == t;
                assert(whole[j] == t);
            }
        }
    }
}

/// Exec form of [`is_space`].
fn is_space_char(c: char) -> (r: bool)
    ensures
        r == is_space(c),
{
    c == ' ' || c == '\t' || c == '\n' || c == '\r' || c == '\u{000B}' || c == '\u{000C}' || c
        == '\u{0085}' || c == '\u{00A0}' || c == '\u{1680}' || c == '\u{2000}' || c == '\u{2001}'
        || c == '\u{2002}' || c == '\u{2003}' || c == '\u{2004}' || c == '\u{2005}' || c
        == '\u{2006}' || c == '\u{2007}' || c == '\u{2008}' || c == '\u{2009}' || c == '\u{200A}'
        || c == '\u{2028}' || c == '\u{2029}' || c == '\u{202F}' || c == '\u{205F}' || c
        == '\u{3000}'
}

/// Whether a title is nothing but white space.
#[verifier::loop_isolation(false)]
pub fn is_blank_title(title: &String) -> (r: bool)
    ensures
        r == is_blank(title@),
{
    let text = title.as_str();
    let len = text.unicode_len();
    let mut i: usize = 0;
    while i < len
        invariant
            i <= len,
            forall|k: int| 0 <= k < i ==> is_space(#[trigger] title@[k]),
        decreases len - i,
    {
        if !is_space_char(text.get_char(i)) {
            return false;
        }
        i = i + 1;
    }
    true
}

/// The running-windows list: the title of every entry the host reported
/// visible whose title is more than white space, in enumeration order.
#[verifier::loop_isolation(false)]
pub fn filter_visible_titles(entries: Vec<WindowEntry>) -> (r: Vec<String>)
    ensures
        r.deep_view() == visible_titles(entries.deep_view()),
{
    let mut r: Vec<String> = Vec::new();
    let mut i: usize = 0;
    while i < entries.len()
        invariant
            i <= entries.len(),
            r.deep_view() =~= visible_titles(entries.deep_view().take(i as int)),
        decreases entries.len() - i,
    {
        let e = &entries[i];
        let ghost dv = r.deep_view();
        proof {
            assert(entries.deep_view()[i as int] == entries@[i as int]@);
            assert(entries.deep_view().take(i as int + 1).drop_last() =~= entries.deep_view().take(
                i as int,
            ));
            assert(entries.deep_view().take(i as int + 1).last() == entries.deep_view()[i as int]);
        }
        if e.visible && !is_blank_title(&e.title) {
            r.push(e.title.clone());
            proof {
                assert(r.deep_view() =~= dv.push(e.title@));
            }
        }
        i = i + 1;
    }
    proof {
        assert(entries.deep_view().take(entries.len() as int) =~= entries.deep_view());
    }
    r
}

} // verus!
