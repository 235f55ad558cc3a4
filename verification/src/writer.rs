use vstd::prelude::*;
use crate::text::{push_char, repeat, repeat_str};

verus! {

/// A line: `n` indentation units, the data, and a line break.
pub open spec fn indented_line(unit: Seq<char>, n: nat, data: Seq<char>) -> Seq<char> {
    (repeat(unit, n) + data).push('\n')
}

/// The indentation unit of a default writer: four spaces.
pub open spec fn tab4() -> Seq<char> {
    repeat(seq![' '], 4)
}

/// A line indented by `n` units of four spaces.
pub open spec fn line(n: nat, data: Seq<char>) -> Seq<char> {
    indented_line(tab4(), n, data)
}

/// The texts that `f` gives for the items, one after another.
pub open spec fn concat_map<T>(items: Seq<T>, f: spec_fn(T) -> Seq<char>) -> Seq<char>
    decreases items.len(),
{
    if items.len() == 0 {
        Seq::empty()
    } else {
        concat_map(items.drop_last(), f) + f(items.last())
    }
}

/// The texts that `f` gives for `0, 1, .., n - 1`, one after another.
pub open spec fn concat_indexed(n: nat, f: spec_fn(nat) -> Seq<char>) -> Seq<char>
    decreases n,
{
    if n == 0 {
        Seq::empty()
    } else {
        concat_indexed((n - 1) as nat, f) + f((n - 1) as nat)
    }
}

/// Writing the texts of the items is writing the texts of their indices.
pub proof fn lemma_concat_map_indexed<T>(items: Seq<T>, f: spec_fn(T) -> Seq<char>, g: spec_fn(nat) -> Seq<char>)
    requires
        forall|k: nat| k < items.len() ==> #[trigger] g(k) == f(items[k as int]),
    ensures
        concat_map(items, f) == concat_indexed(items.len(), g),
    decreases items.len(),
{
    if items.len() > 0 {
        let rest = items.drop_last();
        assert forall|k: nat| k < rest.len() implies #[trigger] g(k) == f(rest[k as int]) by {
            assert(rest[k as int] == items[k as int]);
        }
        lemma_concat_map_indexed(rest, f, g);
        assert(g((items.len() - 1) as nat) == f(items.last()));
    }
}

/// What a writer holds: the text written so far, the unit of indentation,
/// the current indentation level, and whether the current line already
/// holds its indentation.
pub struct WriterState {
    pub text: Seq<char>,
    pub tab: Seq<char>,
    pub level: nat,
    pub contains_tabs: bool,
}

impl WriterState {
    pub open spec fn indent(self) -> Seq<char> {
        repeat(self.tab, self.level)
    }

    pub open spec fn pushed(self) -> WriterState {
        WriterState { level: self.level + 1, ..self }
    }

    pub open spec fn popped(self) -> WriterState {
        WriterState { level: (self.level - 1) as nat, ..self }
    }

    pub open spec fn tabbed(self) -> WriterState {
        if self.contains_tabs {
            self
        } else {
            WriterState { text: self.text + self.indent(), contains_tabs: true, ..self }
        }
    }

    pub open spec fn wrote(self, data: Seq<char>) -> WriterState {
        WriterState { text: self.text + data, contains_tabs: false, ..self }
    }

    pub open spec fn wrote_line(self, data: Seq<char>) -> WriterState {
        WriterState { text: self.text + indented_line(self.tab, self.level, data), contains_tabs: false, ..self }
    }

    pub open spec fn new_lined(self) -> WriterState {
        WriterState { text: self.text.push('\n'), contains_tabs: false, ..self }
    }

    pub open spec fn wrote_line_tab(self, tab: nat, data: Seq<char>) -> WriterState {
        WriterState { text: self.text + indented_line(self.tab, self.level + tab, data), ..self }
    }
}

/// Indenting one level deeper and back leaves the writer as it was.
pub proof fn lemma_push_pop(s: WriterState)
    ensures
        s.pushed().popped() == s,
{
}

/// Writing the indentation twice writes it once: the second call finds the
/// line already indented.
pub proof fn lemma_write_tabs_idempotent(s: WriterState)
    ensures
        s.tabbed().tabbed() == s.tabbed(),
{
}

/// Every operation of a writer keeps what was written so far and only adds
/// after it; none changes the indentation unit.
pub proof fn lemma_writer_appends(s: WriterState, data: Seq<char>, tab: nat)
    ensures
        s.text.is_prefix_of(s.wrote(data).text),
        s.text.is_prefix_of(s.wrote_line(data).text),
        s.text.is_prefix_of(s.new_lined().text),
        s.text.is_prefix_of(s.tabbed().text),
        s.text.is_prefix_of(s.wrote_line_tab(tab, data).text),
        s.text == s.pushed().text && s.text == s.popped().text,
        s.wrote(data).tab == s.tab && s.wrote_line(data).tab == s.tab && s.new_lined().tab == s.tab,
        s.tabbed().tab == s.tab && s.pushed().tab == s.tab && s.popped().tab == s.tab,
{
    assert(s.text.is_prefix_of(s.text + data));
    assert(s.text.is_prefix_of(s.text + indented_line(s.tab, s.level, data)));
    assert(s.text.is_prefix_of(s.text.push('\n')));
    assert(s.text.is_prefix_of(s.text + s.indent()));
    assert(s.text.is_prefix_of(s.text + indented_line(s.tab, s.level + tab, data)));
}

/// Whether `t` keeps all that `s` had written, with the same unit of
/// indentation.
pub open spec fn grows(s: WriterState, t: WriterState) -> bool {
    &&& s.text.len() <= t.text.len()
    &&& forall|i: int| 0 <= i < s.text.len() ==> #[trigger] t.text[i] == s.text[i]
    &&& t.tab == s.tab
}

pub struct Writer {
    res: String,
    tab: String,
    const_tabs: usize,
    contains_tabs: bool,
}

impl View for Writer {
    type V = WriterState;

    closed spec fn view(&self) -> WriterState {
        WriterState {
            text: self.res@,
            tab: self.tab@,
            level: self.const_tabs as nat,
            contains_tabs: self.contains_tabs,
        }
    }
}

impl Writer {
    pub fn new(tab_size: usize) -> (w: Self)
        ensures
            w@ == (WriterState {
                text: Seq::empty(),
                tab: repeat(seq![' '], tab_size as nat),
                level: 0,
                contains_tabs: false,
            }),
    {
        let mut tab = String::new();
        let mut i: usize = 0;
        while i < tab_size
            invariant
                i <= tab_size,
                tab@ == repeat(seq![' '], i as nat),
            decreases tab_size - i,
        {
            push_char(&mut tab, ' ');
            i = i + 1;
        }
        Writer { res: String::new(), tab, const_tabs: 0, contains_tabs: false }
    }

    /// The indentation level of a writer always fits in `usize`.
    pub proof fn lemma_level_fits(&self)
        ensures
            self@.level <= usize::MAX,
    {
    }

    pub fn push_tab(&mut self)
        requires
            old(self)@.level < usize::MAX,
        ensures
            final(self)@ == old(self)@.pushed(),
    {
        self.const_tabs += 1;
    }

    pub fn pop_tab(&mut self)
        requires
            old(self)@.level > 0,
        ensures
            final(self)@ == old(self)@.popped(),
    {
        self.const_tabs -= 1;
    }

    pub fn show(&self) -> (s: &str)
        ensures
            s@ == self@.text,
    {
        self.res.as_str()
    }

    pub fn write_tabs(&mut self)
        ensures
            final(self)@ == old(self)@.tabbed(),
    {
        if !self.contains_tabs {
            let t = repeat_str(self.tab.as_str(), self.const_tabs);
            self.res.append(t.as_str());
            self.contains_tabs = true;
        }
    }

    pub fn write(&mut self, data: &str)
        ensures
            final(self)@ == old(self)@.wrote(data@),
    {
        self.res.append(data);
        self.contains_tabs = false;
    }

    pub fn writeln(&mut self, data: &str)
        ensures
            final(self)@ == old(self)@.wrote_line(data@),
    {
        let t = repeat_str(self.tab.as_str(), self.const_tabs);
        self.res.append(t.as_str());
        self.res.append(data);
        push_char(&mut self.res, '\n');
        self.contains_tabs = false;
        proof {
            assert(self.res@ =~= old(self)@.text + indented_line(self.tab@, self.const_tabs as nat, data@));
        }
    }

    pub fn new_line(&mut self)
        ensures
            final(self)@ == old(self)@.new_lined(),
    {
        push_char(&mut self.res, '\n');
        self.contains_tabs = false;
    }

    pub fn writeln_tab(&mut self, tab: usize, data: &str)
        requires
            old(self)@.level + tab <= usize::MAX,
        ensures
            final(self)@ == old(self)@.wrote_line_tab(tab as nat, data@),
    {
        let t = repeat_str(self.tab.as_str(), self.const_tabs + tab);
        self.res.append(t.as_str());
        self.res.append(data);
        push_char(&mut self.res, '\n');
        proof {
            assert(self.res@ =~= old(self)@.text + indented_line(self.tab@, (self.const_tabs + tab) as nat, data@));
        }
    }
}

/// A fresh writer: no text, four spaces per level, at level 0.
pub open spec fn default_writer_state() -> WriterState {
    WriterState { text: Seq::empty(), tab: tab4(), level: 0, contains_tabs: false }
}

impl Default for Writer {
    fn default() -> (w: Self)
        ensures
            w@ == default_writer_state(),
    {
        Self::new(4)
    }
}

} // verus!
