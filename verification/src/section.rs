//! The system prompt as an ordered list of sections, rendered fresh before
//! every model call.

use vstd::prelude::*;

use crate::message::{Content, Message, text_message, Role};
use crate::text::{is_blank, is_blank_text, join, join_strings};

verus! {

/// A system-prompt section whose text can change between model calls.
///
/// Implementations hold whatever state they render from and are rendered
/// fresh before every call, so a change made by a tool earlier in the run is
/// visible on the next round.
pub trait DynamicSection: Send + Sync {
    /// Renders this section's current text.
    ///
    /// An empty or whitespace-only result drops the section from that
    /// call's system prompt entirely.
    fn render(&self) -> String;
}

/// `text` is a rendering `section` can give: what its
/// [`DynamicSection::render`] may return on some call.
pub open spec fn rendering_of<S: DynamicSection + ?Sized>(section: &S, text: String) -> bool {
    call_ensures(S::render, (section,), text)
}

/// One entry in a system prompt: fixed text, or a [`DynamicSection`]
/// rendered fresh before every call.
pub enum SystemSection {
    /// Fixed text, rendered unchanged on every call.
    Static(String),
    /// Text rendered fresh from a [`DynamicSection`] before every call.
    Dynamic(Box<dyn DynamicSection>),
}

impl SystemSection {
    /// A section rendered fresh from `section` before every model call.
    pub fn dynamic<S: DynamicSection + 'static>(section: S) -> (s: Self)
        ensures
            s == SystemSection::Dynamic(Box::new(section)),
    {
        SystemSection::Dynamic(Box::new(section))
    }

    /// A section of fixed text.
    pub fn from_text(text: &str) -> (s: Self)
        ensures
            s matches SystemSection::Static(t) && t@ == text@,
    {
        SystemSection::Static(crate::text::owned(text))
    }

    /// This section's text for the next call: the fixed text, or a fresh
    /// rendering.
    pub fn render(&self) -> (r: String)
        ensures
            self matches SystemSection::Static(t) ==> r@ == t@,
            self matches SystemSection::Dynamic(section) ==> rendering_of(&**section, r),
            rendered_as(*self, r),
    {
        match self {
            SystemSection::Static(text) => text.clone(),
            SystemSection::Dynamic(section) => section.render(),
        }
    }
}

impl From<String> for SystemSection {
    fn from(text: String) -> (s: Self) {
        SystemSection::Static(text)
    }
}

impl vstd::std_specs::convert::FromSpecImpl<String> for SystemSection {
    open spec fn obeys_from_spec() -> bool {
        true
    }

    open spec fn from_spec(text: String) -> Self {
        SystemSection::Static(text)
    }
}

/// The texts of `texts` that are not blank, in order.
pub open spec fn non_blank(texts: Seq<Seq<char>>) -> Seq<Seq<char>>
    decreases texts.len(),
{
    if texts.len() == 0 {
        Seq::empty()
    } else if is_blank(texts.last()) {
        non_blank(texts.drop_last())
    } else {
        non_blank(texts.drop_last()).push(texts.last())
    }
}

/// The system prompt's text: every non-blank section, joined by a blank
/// line.
pub open spec fn prompt_text(texts: Seq<Seq<char>>) -> Seq<char> {
    join(non_blank(texts), "\n\n"@)
}

/// The system message for rendered section texts: `None` when every text
/// is blank, else one system message holding [`prompt_text`].
pub open spec fn is_prompt_for(r: Option<Message>, texts: Seq<Seq<char>>) -> bool {
    if non_blank(texts).len() == 0 {
        r is None
    } else {
        r matches Some(m) && text_message(Role::System, prompt_text(texts), m)
    }
}

/// Every string's view, in order.
pub open spec fn text_views(v: Seq<String>) -> Seq<Seq<char>> {
    v.map_values(|s: String| s@)
}

/// Joins the non-blank rendered texts with a blank line into one system
/// message — or `None` if every text is blank.
pub fn system_prompt(rendered: &Vec<String>) -> (r: Option<Message>)
    ensures
        is_prompt_for(r, text_views(rendered@)),
{
    let ghost texts = text_views(rendered@);
    let mut kept: Vec<String> = Vec::new();
    let mut i: usize = 0;
    while i < rendered.len()
        invariant
            i <= rendered@.len(),
            texts == text_views(rendered@),
            text_views(kept@) == non_blank(texts.take(i as int)),
        decreases rendered.len() - i,
    {
        assert(texts.take(i + 1).drop_last() =~= texts.take(i as int));
        assert(texts.take(i + 1).last() == rendered@[i as int]@);
        if !is_blank_text(rendered[i].as_str()) {
            let ghost before = kept@;
            kept.push(rendered[i].clone());
            assert(text_views(kept@) =~= text_views(before).push(rendered@[i as int]@));
        }
        i = i + 1;
    }
    assert(texts.take(rendered.len() as int) =~= texts);
    proof {
        reveal_strlit("\n\n");
    }
    if kept.len() == 0 {
        None
    } else {
        let joined = join_strings(&kept, "\n\n");
        Some(Message::system(joined.as_str()))
    }
}

/// `r` is the system message built from one rendering of `sections`:
/// each fixed section rendered as its text, each dynamic one as a text its
/// own [`DynamicSection::render`] returned, unchanged.
pub open spec fn renders(r: Option<Message>, sections: Seq<SystemSection>) -> bool {
    exists|texts: Seq<String>|
        #![trigger is_prompt_for(r, text_views(texts))]
        {
            &&& texts.len() == sections.len()
            &&& forall|i: int| 0 <= i < sections.len() ==> #[trigger] rendered_as(sections[i], texts[i])
            &&& is_prompt_for(r, text_views(texts))
        }
}

/// `text` is what `section` rendered: its fixed text, or unchanged what
/// its dynamic source returned.
pub open spec fn rendered_as(section: SystemSection, text: String) -> bool {
    match section {
        SystemSection::Static(t) => text@ == t@,
        SystemSection::Dynamic(source) => rendering_of(&*source, text),
    }
}

/// `text` stands verbatim, as one unbroken stretch, in the system message
/// `r`.
pub open spec fn holds_verbatim(r: Option<Message>, text: Seq<char>) -> bool {
    &&& r matches Some(m)
    &&& m.role == Role::System
    &&& m.content@.len() == 1
    &&& m.content@[0] matches Content::Text(t) && exists|lo: int|
        0 <= lo && lo + text.len() <= t@.len() && #[trigger] t@.subrange(lo, lo + text.len())
            == text
}

/// Each part stands, unbroken, in the parts joined.
proof fn lemma_join_holds_part(parts: Seq<Seq<char>>, sep: Seq<char>, j: int) -> (lo: int)
    requires
        0 <= j < parts.len(),
    ensures
        0 <= lo,
        lo + parts[j].len() <= join(parts, sep).len(),
        join(parts, sep).subrange(lo, lo + parts[j].len()) == parts[j],
    decreases parts.len(),
{
    if parts.len() == 1 {
        assert(join(parts, sep).subrange(0, parts[j].len() as int) =~= parts[j]);
        0
    } else {
        let pre = join(parts.drop_last(), sep);
        assert(join(parts, sep) == pre + sep + parts.last());
        if j == parts.len() - 1 {
            let lo: int = (pre.len() + sep.len()) as int;
            assert((pre + sep + parts.last()).subrange(lo, lo + parts[j].len()) =~= parts[j]);
            lo
        } else {
            let lo = lemma_join_holds_part(parts.drop_last(), sep, j);
            assert(parts.drop_last()[j] == parts[j]);
            assert((pre + sep + parts.last()).subrange(lo, lo + parts[j].len()) =~= pre.subrange(
                lo,
                lo + parts[j].len(),
            ));
            lo
        }
    }
}

/// A text that is not blank is among the kept texts.
proof fn lemma_non_blank_keeps(texts: Seq<Seq<char>>, i: int) -> (j: int)
    requires
        0 <= i < texts.len(),
        !is_blank(texts[i]),
    ensures
        0 <= j < non_blank(texts).len(),
        non_blank(texts)[j] == texts[i],
    decreases texts.len(),
{
    if i == texts.len() - 1 {
        non_blank(texts.drop_last()).len() as int
    } else {
        assert(texts.drop_last()[i] == texts[i]);
        lemma_non_blank_keeps(texts.drop_last(), i)
    }
}

/// Every section that renders to something not blank shows up, verbatim
/// and unbroken, in the system prompt built from that rendering: a fixed
/// section as its text, a dynamic one as exactly what its own
/// [`DynamicSection::render`] returned.
pub proof fn law_prompt_holds_each_rendering(r: Option<Message>, sections: Seq<SystemSection>)
    requires
        renders(r, sections),
    ensures
        exists|texts: Seq<String>|
            {
                &&& texts.len() == sections.len()
                &&& forall|i: int|
                    0 <= i < sections.len() ==> #[trigger] rendered_as(sections[i], texts[i])
                &&& forall|i: int|
                    0 <= i < sections.len() && !is_blank(texts[i]@) ==> holds_verbatim(
                        r,
                        #[trigger] texts[i]@,
                    )
            },
{
    let texts = choose|texts: Seq<String>|
        {
            &&& texts.len() == sections.len()
            &&& forall|i: int| 0 <= i < sections.len() ==> #[trigger] rendered_as(sections[i], texts[i])
            &&& is_prompt_for(r, text_views(texts))
        };
    assert(is_prompt_for(r, text_views(texts)));
    let views = text_views(texts);
    assert forall|i: int| 0 <= i < sections.len() && !is_blank(texts[i]@) implies holds_verbatim(
        r,
        #[trigger] texts[i]@,
    ) by {
        assert(views[i] == texts[i]@);
        let j = lemma_non_blank_keeps(views, i);
        let lo = lemma_join_holds_part(non_blank(views), "\n\n"@, j);
        let m = r->0;
        let t = m.content@[0]->Text_0;
        assert(t@.subrange(lo, lo + texts[i]@.len()) == texts[i]@);
    }
}

/// Sections are separated by exactly one blank line, and a blank section
/// leaves no trace: two texts that are not blank give `a`, a blank line,
/// then `b`; a blank one is dropped; two blank ones give no system message.
pub proof fn law_prompt_joins_with_blank_line(r: Option<Message>, a: Seq<char>, b: Seq<char>)
    requires
        is_prompt_for(r, seq![a, b]),
    ensures
        !is_blank(a) && !is_blank(b) ==> (r matches Some(m) && text_message(
            Role::System,
            a + "\n\n"@ + b,
            m,
        )),
        !is_blank(a) && is_blank(b) ==> (r matches Some(m) && text_message(Role::System, a, m)),
        is_blank(a) && !is_blank(b) ==> (r matches Some(m) && text_message(Role::System, b, m)),
        is_blank(a) && is_blank(b) ==> r is None,
{
    let texts = seq![a, b];
    assert(texts.drop_last() =~= seq![a]);
    assert(seq![a].drop_last() =~= Seq::<Seq<char>>::empty());
    assert(texts.last() == b && seq![a].last() == a);
    assert(non_blank(Seq::<Seq<char>>::empty()) =~= Seq::<Seq<char>>::empty());
    let first = non_blank(seq![a]);
    assert(first =~= if is_blank(a) {
        Seq::<Seq<char>>::empty()
    } else {
        seq![a]
    });
    let kept = non_blank(texts);
    assert(kept == if is_blank(b) {
        first
    } else {
        first.push(b)
    });
    if !is_blank(a) && !is_blank(b) {
        assert(kept =~= seq![a, b]);
        assert(kept.drop_last() =~= seq![a]);
        assert(join(seq![a], "\n\n"@) == a);
        assert(join(kept, "\n\n"@) == join(kept.drop_last(), "\n\n"@) + "\n\n"@ + kept.last());
    } else if !is_blank(a) {
        assert(kept =~= seq![a]);
    } else if !is_blank(b) {
        assert(kept =~= seq![b]);
    } else {
        assert(kept =~= Seq::<Seq<char>>::empty());
    }
}

/// Renders every section in list order and builds the system message from
/// the results: `None` when every section renders blank.
pub fn render_system_prompt(sections: &Vec<SystemSection>) -> (r: Option<Message>)
    ensures
        renders(r, sections@),
{
    let mut rendered: Vec<String> = Vec::new();
    let mut i: usize = 0;
    while i < sections.len()
        invariant
            i <= sections@.len(),
            rendered@.len() == i,
            forall|k: int| 0 <= k < i ==> #[trigger] rendered_as(sections@[k], rendered@[k]),
        decreases sections.len() - i,
    {
        let text = sections[i].render();
        rendered.push(text);
        i = i + 1;
    }
    let r = system_prompt(&rendered);
    assert(is_prompt_for(r, text_views(rendered@)));
    r
}

} // verus!
