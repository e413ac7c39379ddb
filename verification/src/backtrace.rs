//! The call-site trace: pushed on entry, popped on return, and truncated in
//! one step when an unwind has been caught.

use crate::program::function::joined_names;
use crate::program::function::FunctionPath;
use vstd::prelude::*;

verus! {

/// The character of a decimal digit.
pub open spec fn digit(value: nat) -> char {
    if value == 0 {
        '0'
    } else if value == 1 {
        '1'
    } else if value == 2 {
        '2'
    } else if value == 3 {
        '3'
    } else if value == 4 {
        '4'
    } else if value == 5 {
        '5'
    } else if value == 6 {
        '6'
    } else if value == 7 {
        '7'
    } else if value == 8 {
        '8'
    } else {
        '9'
    }
}

/// A number in decimal digits, the most significant first.
pub open spec fn decimal(number: nat) -> Seq<char>
    decreases number,
{
    if number < 10 {
        seq![digit(number)]
    } else {
        decimal(number / 10).push(digit(number % 10))
    }
}

/// The text of a decimal digit.
fn digit_text(value: usize) -> (text: &'static str)
    requires
        value < 10,
    ensures
        text@ == seq![digit(value as nat)],
{
    proof {
        reveal_strlit("0");
        reveal_strlit("1");
        reveal_strlit("2");
        reveal_strlit("3");
        reveal_strlit("4");
        reveal_strlit("5");
        reveal_strlit("6");
        reveal_strlit("7");
        reveal_strlit("8");
        reveal_strlit("9");
    }
    let text = if value == 0 {
        "0"
    } else if value == 1 {
        "1"
    } else if value == 2 {
        "2"
    } else if value == 3 {
        "3"
    } else if value == 4 {
        "4"
    } else if value == 5 {
        "5"
    } else if value == 6 {
        "6"
    } else if value == 7 {
        "7"
    } else if value == 8 {
        "8"
    } else {
        "9"
    };
    assert(text@ =~= seq![digit(value as nat)]);
    text
}

/// Writes a number in decimal digits.
pub fn decimal_text(number: usize) -> (text: String)
    ensures
        text@ == decimal(number as nat),
{
    let mut text = String::from_str(digit_text(number % 10));
    let mut rest = number / 10;
    proof {
        assert(text@ =~= Seq::<char>::empty().push(digit((number % 10) as nat)));
    }
    while rest > 0
        invariant
            rest > 0 ==> decimal(number as nat) == decimal(rest as nat) + text@,
            rest == 0 ==> decimal(number as nat) == text@,
            number < 10 ==> rest == 0 && text@ == seq![digit(number as nat)],
        decreases rest,
    {
        let ghost lower = text@;
        let mut longer = String::from_str(digit_text(rest % 10));
        longer.append(text.as_str());
        text = longer;
        proof {
            let low = digit((rest % 10) as nat);
            assert(text@ =~= seq![low] + lower);
            if rest >= 10 {
                assert(decimal(rest as nat) == decimal((rest / 10) as nat).push(low));
                assert(decimal((rest / 10) as nat).push(low) + lower =~= decimal(
                    (rest / 10) as nat,
                ) + (seq![low] + lower));
            } else {
                assert(decimal(rest as nat) == seq![low]);
            }
        }
        rest = rest / 10;
    }
    text
}

/// One call site: the function entered and, where known, the line and the
/// column of the call.
#[derive(Debug)]
pub struct BacktraceEntry {
    pub function_name: FunctionPath,
    pub line: Option<usize>,
    pub column: Option<usize>,
}

impl BacktraceEntry {
    pub fn new(function_name: FunctionPath, line: Option<usize>, column: Option<usize>) -> (entry:
        Self)
        ensures
            entry.function_name == function_name,
            entry.line == line,
            entry.column == column,
    {
        BacktraceEntry { function_name, line, column }
    }

    /// The path of the function as text, `::` between its names.
    pub fn get_function_name(&self) -> (name: String)
        ensures
            name@ == joined_names(self.function_name@),
    {
        self.function_name.to_string()
    }

    /// The call site as text: the path of the function, then, where they
    /// are known, a colon and the line, and a colon and the column.
    pub fn to_string(&self) -> (text: String)
        ensures
            text@ == self@.text(),
    {
        let mut text = self.function_name.to_string();
        proof {
            reveal_strlit(":");
            assert(":"@ =~= seq![':']);
        }
        match self.line {
            Some(line) => {
                text.append(":");
                text.append(decimal_text(line).as_str());
                match self.column {
                    Some(column) => {
                        text.append(":");
                        text.append(decimal_text(column).as_str());
                    },
                    None => {},
                }
            },
            None => {},
        }
        text
    }

    pub fn get_line(&self) -> (line: Option<usize>)
        ensures
            line == self.line,
    {
        self.line
    }

    pub fn get_column(&self) -> (column: Option<usize>)
        ensures
            column == self.column,
    {
        self.column
    }
}

/// What a call site is, as plain values.
pub struct BacktraceEntryView {
    pub function_name: Seq<Seq<char>>,
    pub line: Option<usize>,
    pub column: Option<usize>,
}

impl View for BacktraceEntry {
    type V = BacktraceEntryView;

    open spec fn view(&self) -> BacktraceEntryView {
        BacktraceEntryView {
            function_name: self.function_name@,
            line: self.line,
            column: self.column,
        }
    }
}

impl BacktraceEntryView {
    /// The call site as text: the path of the function, then, where they
    /// are known, a colon and the line, and a colon and the column. A column
    /// without a line is not shown.
    pub open spec fn text(self) -> Seq<char> {
        joined_names(self.function_name) + match self.line {
            Some(line) => seq![':'] + decimal(line as nat) + match self.column {
                Some(column) => seq![':'] + decimal(column as nat),
                None => Seq::empty(),
            },
            None => Seq::empty(),
        }
    }
}

/// The call sites as text, each on a line of its own.
pub open spec fn trace_text(sites: Seq<BacktraceEntryView>) -> Seq<char>
    decreases sites.len(),
{
    if sites.len() == 0 {
        Seq::empty()
    } else {
        trace_text(sites.drop_last()) + sites.last().text() + seq!['\n']
    }
}

/// What a trace is, as plain values.
pub struct BacktraceView {
    /// The call sites, the outermost first.
    pub entries: Seq<BacktraceEntry>,
    /// How many frames an unwind has left behind without popping them.
    pub unwind_levels: nat,
}

impl BacktraceView {
    /// The call sites of the trace as plain values, the outermost first.
    pub open spec fn sites(self) -> Seq<BacktraceEntryView> {
        self.entries.map_values(|entry: BacktraceEntry| entry@)
    }

    /// The trace after one more frame was unwound.
    pub open spec fn increment(self) -> BacktraceView {
        BacktraceView { unwind_levels: self.unwind_levels + 1, ..self }
    }

    /// The trace after `count` more frames were unwound.
    pub open spec fn increment_times(self, count: nat) -> BacktraceView
        decreases count,
    {
        if count == 0 {
            self
        } else {
            self.increment_times((count - 1) as nat).increment()
        }
    }

    /// How many entries are left once the unwound frames are popped.
    pub open spec fn kept(self) -> int {
        if self.unwind_levels >= self.entries.len() {
            0
        } else {
            self.entries.len() - self.unwind_levels
        }
    }

    /// The trace after the unwound frames were popped in one step.
    pub open spec fn remove_unwound(self) -> BacktraceView {
        BacktraceView { entries: self.entries.take(self.kept()), unwind_levels: 0 }
    }
}

/// The trace of the calls that are under way.
#[derive(Debug)]
pub struct BacktraceInfo {
    backtrace: Vec<BacktraceEntry>,
    unwind_levels: usize,
}

impl View for BacktraceInfo {
    type V = BacktraceView;

    closed spec fn view(&self) -> BacktraceView {
        BacktraceView { entries: self.backtrace@, unwind_levels: self.unwind_levels as nat }
    }
}

impl BacktraceInfo {
    /// An empty trace.
    pub fn new() -> (trace: Self)
        ensures
            trace@.entries.len() == 0,
            trace@.unwind_levels == 0,
    {
        BacktraceInfo { backtrace: Vec::new(), unwind_levels: 0 }
    }

    /// Counts one more frame that an unwind leaves behind without popping it.
    pub fn increment_unwind_levels(&mut self)
        requires
            old(self)@.unwind_levels < usize::MAX,
        ensures
            final(self)@ == old(self)@.increment(),
    {
        self.unwind_levels = self.unwind_levels + 1;
    }

    /// Pops the frames that an unwind left behind, all at once: the trace
    /// ends at the site that caught it.
    pub fn remove_unwind_levels(&mut self)
        ensures
            final(self)@ == old(self)@.remove_unwound(),
    {
        while self.unwind_levels > 0
            invariant
                self@.remove_unwound() == old(self)@.remove_unwound(),
            decreases self.unwind_levels,
        {
            let ghost before = self@;
            self.backtrace.pop();
            self.unwind_levels = self.unwind_levels - 1;
            assert(self@.entries.take(self@.kept()) =~= before.entries.take(before.kept()));
        }
        assert(self@.entries.take(self@.kept()) =~= self@.entries);
    }

    /// Adds the site of a call that is entered.
    pub fn push(&mut self, entry: BacktraceEntry)
        ensures
            final(self)@ == (BacktraceView {
                entries: old(self)@.entries.push(entry),
                ..old(self)@
            }),
    {
        self.backtrace.push(entry);
    }

    /// Takes off the site of the call that returns; nothing from an empty
    /// trace.
    pub fn pop(&mut self) -> (entry: Option<BacktraceEntry>)
        ensures
            match entry {
                Some(last) => old(self)@.entries.len() > 0 && last == old(self)@.entries.last()
                    && final(self)@ == (BacktraceView {
                    entries: old(self)@.entries.drop_last(),
                    ..old(self)@
                }),
                None => old(self)@.entries.len() == 0 && final(self)@ == old(self)@,
            },
    {
        self.backtrace.pop()
    }

    /// The site at `index`, the outermost being the first.
    pub fn get(&self, index: usize) -> (entry: Option<&BacktraceEntry>)
        ensures
            match entry {
                Some(found) => index < self@.entries.len() && *found == self@.entries[index as int],
                None => index >= self@.entries.len(),
            },
    {
        if index < self.backtrace.len() {
            Some(&self.backtrace[index])
        } else {
            None
        }
    }

    /// The trace as text: one call site per line, the outermost first.
    pub fn to_string(&self) -> (text: String)
        ensures
            text@ == trace_text(self@.sites()),
    {
        let mut text = String::new();
        let mut i: usize = 0;
        proof {
            reveal_strlit("\n");
            assert("\n"@ =~= seq!['\n']);
            assert(self@.sites().take(0) =~= Seq::<BacktraceEntryView>::empty());
        }
        while i < self.backtrace.len()
            invariant
                i <= self.backtrace@.len(),
                "\n"@ == seq!['\n'],
                text@ == trace_text(self@.sites().take(i as int)),
            decreases self.backtrace@.len() - i,
        {
            proof {
                let shown = self@.sites().take(i + 1);
                assert(shown.drop_last() =~= self@.sites().take(i as int));
                assert(shown.last() == self.backtrace@[i as int]@);
            }
            text.append(self.backtrace[i].to_string().as_str());
            text.append("\n");
            i += 1;
        }
        proof {
            assert(self@.sites().take(self.backtrace@.len() as int) =~= self@.sites());
        }
        text
    }

    pub fn len(&self) -> (len: usize)
        ensures
            len == self@.entries.len(),
    {
        self.backtrace.len()
    }

    /// How many frames an unwind has left behind so far.
    pub fn get_unwind_levels(&self) -> (levels: usize)
        ensures
            levels == self@.unwind_levels,
    {
        self.unwind_levels
    }

    /// Records the line and the column of the innermost call site. An empty
    /// trace stays as it is.
    pub fn set_row_column(&mut self, row: usize, column: usize)
        ensures
            final(self)@.unwind_levels == old(self)@.unwind_levels,
            final(self)@.entries.len() == old(self)@.entries.len(),
            forall|i: int|
                0 <= i < old(self)@.entries.len() - 1 ==> final(self)@.entries[i] == old(
                    self,
                )@.entries[i],
            old(self)@.entries.len() > 0 ==> {
                let last = final(self)@.entries.last();
                &&& last.function_name == old(self)@.entries.last().function_name
                &&& last.line == Some(row)
                &&& last.column == Some(column)
            },
    {
        match self.backtrace.pop() {
            Some(entry) => {
                self.backtrace.push(
                    BacktraceEntry {
                        function_name: entry.function_name,
                        line: Some(row),
                        column: Some(column),
                    },
                );
            },
            None => {},
        }
    }
}

/// After `count` frames were unwound from a trace that had none unwound, and
/// that holds at least `count` entries, popping the unwound frames leaves
/// exactly `count` fewer entries: the first ones, unchanged.
pub proof fn lemma_unwind_truncation(trace: BacktraceView, count: nat)
    requires
        trace.unwind_levels == 0,
        count <= trace.entries.len(),
    ensures
        trace.increment_times(count).remove_unwound().entries.len() == trace.entries.len() - count,
        trace.increment_times(count).remove_unwound().entries == trace.entries.take(
            trace.entries.len() - count,
        ),
        trace.increment_times(count).remove_unwound().unwind_levels == 0,
{
    lemma_increment_times(trace, count);
}

/// Unwinding `count` frames adds `count` to the unwind levels and leaves the
/// entries alone.
pub proof fn lemma_increment_times(trace: BacktraceView, count: nat)
    ensures
        trace.increment_times(count).unwind_levels == trace.unwind_levels + count,
        trace.increment_times(count).entries == trace.entries,
    decreases count,
{
    if count > 0 {
        lemma_increment_times(trace, (count - 1) as nat);
    }
}

} // verus!
