//! Function paths and the two kinds of function that a module holds.

use crate::instruction::Instruction;
use std::sync::Arc;
use vstd::prelude::*;

verus! {

/// The name of a function: the names of the modules that lead to it, and its
/// own name last.
#[derive(Debug)]
pub struct FunctionPath {
    pub path: Vec<String>,
}

impl View for FunctionPath {
    type V = Seq<Seq<char>>;

    open spec fn view(&self) -> Seq<Seq<char>> {
        self.path@.map_values(|segment: String| segment@)
    }
}

/// Whether `::` stands at `at` in the text.
pub open spec fn separator_at(text: Seq<char>, at: int) -> bool {
    0 <= at && at + 1 < text.len() && text[at] == ':' && text[at + 1] == ':'
}

/// Where the first `::` at or after `from` stands in the text; the length
/// of the text where there is none.
pub open spec fn next_separator(text: Seq<char>, from: int) -> int
    decreases text.len() - from,
{
    if from < 0 || from + 1 >= text.len() {
        text.len() as int
    } else if separator_at(text, from) {
        from
    } else {
        next_separator(text, from + 1)
    }
}

/// The names that a text spells: what stands before the first `::`, and
/// the names that the text after it spells. A text without `::` spells one
/// name, itself.
pub open spec fn split_names(text: Seq<char>) -> Seq<Seq<char>>
    decreases text.len(),
{
    let at = next_separator(text, 0);
    if 0 <= at && at + 1 < text.len() {
        seq![text.subrange(0, at)] + split_names(text.subrange(at + 2, text.len() as int))
    } else {
        seq![text]
    }
}

/// The first `::` at or after `from` stands within the text, or there is
/// none and the text's length is given.
pub proof fn lemma_next_separator(text: Seq<char>, from: int)
    requires
        0 <= from,
    ensures
        from <= next_separator(text, from) || next_separator(text, from) == text.len(),
        next_separator(text, from) < text.len() ==> separator_at(
            text,
            next_separator(text, from),
        ),
        next_separator(text, from) <= text.len(),
    decreases text.len() - from,
{
    if from + 1 < text.len() && !separator_at(text, from) {
        lemma_next_separator(text, from + 1);
    }
}

/// Splits a text into the names that it spells, which `::` separates.
pub fn split_path(text: &str) -> (names: Vec<String>)
    ensures
        names@.map_values(|segment: String| segment@) == split_names(text@),
{
    let length = text.unicode_len();
    let mut names: Vec<String> = Vec::new();
    let mut start: usize = 0;
    let mut at: usize = 0;
    proof {
        assert(text@.subrange(0, length as int) =~= text@);
    }
    while at < length && at + 1 < length
        invariant
            start <= at <= length,
            length == text@.len(),
            split_names(text@) == names@.map_values(|segment: String| segment@) + split_names(
                text@.subrange(start as int, length as int),
            ),
            next_separator(text@.subrange(start as int, length as int), 0) == next_separator(
                text@.subrange(start as int, length as int),
                at - start,
            ),
        decreases length - at,
    {
        let ghost rest = text@.subrange(start as int, length as int);
        let ghost found = names@.map_values(|segment: String| segment@);
        if text.get_char(at) == ':' && text.get_char(at + 1) == ':' {
            let name = String::from_str(text.substring_char(start, at));
            proof {
                assert(separator_at(rest, at - start));
                assert(next_separator(rest, 0) == at - start);
                assert(rest.subrange(0, at - start) =~= text@.subrange(start as int, at as int));
                assert(rest.subrange(at - start + 2, rest.len() as int) =~= text@.subrange(
                    at + 2,
                    length as int,
                ));
            }
            names.push(name);
            proof {
                let after = text@.subrange(at + 2, length as int);
                assert(names@.map_values(|segment: String| segment@) =~= found.push(name@));
                assert(found + (seq![name@] + split_names(after)) =~= found.push(name@)
                    + split_names(after));
            }
            start = at + 2;
            at = start;
        } else {
            proof {
                assert(!separator_at(rest, at - start));
            }
            at += 1;
        }
    }
    let ghost rest = text@.subrange(start as int, length as int);
    let ghost found = names@.map_values(|segment: String| segment@);
    let name = String::from_str(text.substring_char(start, length));
    proof {
        lemma_next_separator(rest, at - start);
        assert(next_separator(rest, at - start) == rest.len());
        assert(split_names(rest) == seq![rest]);
    }
    names.push(name);
    proof {
        assert(names@.map_values(|segment: String| segment@) =~= found.push(name@));
        assert(found + seq![rest] =~= found.push(rest));
    }
    names
}

/// The names joined into one text, `::` between each two.
pub open spec fn joined_names(names: Seq<Seq<char>>) -> Seq<char>
    decreases names.len(),
{
    if names.len() == 0 {
        Seq::empty()
    } else if names.len() == 1 {
        names[0]
    } else {
        joined_names(names.drop_last()) + seq![':', ':'] + names.last()
    }
}

/// Joins a list of names into one text, `::` between each two.
pub fn join_names(names: &Vec<String>) -> (text: String)
    ensures
        text@ == joined_names(names@.map_values(|segment: String| segment@)),
{
    let ghost all = names@.map_values(|segment: String| segment@);
    let mut text = String::new();
    let mut i: usize = 0;
    while i < names.len()
        invariant
            i <= names@.len(),
            all == names@.map_values(|segment: String| segment@),
            text@ == joined_names(all.take(i as int)),
        decreases names@.len() - i,
    {
        proof {
            reveal_strlit("::");
            assert("::"@ =~= seq![':', ':']);
            assert(all.take(i + 1).drop_last() =~= all.take(i as int));
            assert(all.take(i + 1).last() == names@[i as int]@);
        }
        if i > 0 {
            text.append("::");
        }
        text.append(names[i].as_str());
        proof {
            if i == 0 {
                assert(text@ =~= names@[0]@);
            }
        }
        i += 1;
    }
    assert(all.take(names@.len() as int) =~= all);
    text
}

/// A copy of a list of names.
pub fn clone_names(names: &Vec<String>) -> (copy: Vec<String>)
    ensures
        copy@.map_values(|segment: String| segment@) == names@.map_values(|segment: String| segment@),
        copy@.len() == names@.len(),
{
    let mut copy: Vec<String> = Vec::new();
    let mut i: usize = 0;
    while i < names.len()
        invariant
            i <= names@.len(),
            copy@.len() == i,
            forall|j: int| 0 <= j < i ==> (#[trigger] copy@[j])@ == names@[j]@,
        decreases names@.len() - i,
    {
        copy.push(names[i].clone());
        i += 1;
    }
    assert(copy@.map_values(|segment: String| segment@) =~= names@.map_values(
        |segment: String| segment@,
    ));
    copy
}

/// Whether two lists of names hold the same names in the same order.
pub fn same_names(left: &Vec<String>, right: &Vec<String>) -> (same: bool)
    ensures
        same == (left@.map_values(|segment: String| segment@) == right@.map_values(
            |segment: String| segment@,
        )),
{
    let ghost l = left@.map_values(|segment: String| segment@);
    let ghost r = right@.map_values(|segment: String| segment@);
    if left.len() != right.len() {
        assert(l.len() != r.len());
        return false;
    }
    let mut i: usize = 0;
    while i < left.len()
        invariant
            i <= left@.len(),
            left@.len() == right@.len(),
            l == left@.map_values(|segment: String| segment@),
            r == right@.map_values(|segment: String| segment@),
            forall|j: int| 0 <= j < i ==> l[j] == r[j],
        decreases left@.len() - i,
    {
        if left[i] != right[i] {
            assert(l[i as int] != r[i as int]);
            return false;
        }
        i += 1;
    }
    assert(l =~= r);
    true
}

impl FunctionPath {
    /// The path made of the given names.
    pub fn new(path: Vec<String>) -> (function_path: FunctionPath)
        ensures
            function_path.path == path,
    {
        FunctionPath { path }
    }

    /// The path that a text spells: its names are separated by `::`.
    pub fn from_str(text: &str) -> (function_path: FunctionPath)
        ensures
            function_path@ == split_names(text@),
    {
        FunctionPath { path: split_path(text) }
    }

    /// The path as text: its names with `::` between each two.
    pub fn to_string(&self) -> (text: String)
        ensures
            text@ == joined_names(self@),
    {
        join_names(&self.path)
    }

    /// Whether two paths name the same function.
    pub fn same_as(&self, other: &FunctionPath) -> (same: bool)
        ensures
            same == (self@ == other@),
    {
        same_names(&self.path, &other.path)
    }
}

impl Clone for FunctionPath {
    fn clone(&self) -> (copy: FunctionPath)
        ensures
            copy@ == self@,
    {
        FunctionPath { path: clone_names(&self.path) }
    }
}

/// A function of a module: bytecode, or a function of the host that the
/// engine knows by its number.
#[derive(Debug)]
pub enum Function {
    ByteCode(Arc<Vec<Instruction>>),
    Native(u64),
}

/// Another handle on the same instruction sequence.
///
/// Calls `Arc::clone`, which gives a pointer to the same allocation: the
/// sequence behind the result is the one behind the argument.
#[verifier::external_body]
pub(crate) fn share_instructions(instructions: &Arc<Vec<Instruction>>) -> (shared: Arc<
    Vec<Instruction>,
>)
    ensures
        shared == *instructions,
{
    Arc::clone(instructions)
}

impl Function {
    /// The instructions of a bytecode function; none for a native one.
    pub open spec fn code(self) -> Seq<Instruction> {
        match self {
            Function::ByteCode(code) => code@,
            Function::Native(_) => Seq::empty(),
        }
    }

    /// The instructions of a bytecode function; none for a native one.
    pub fn get_instructions(&self) -> (instructions: Arc<Vec<Instruction>>)
        ensures
            instructions@ == self.code(),
    {
        match self {
            Function::ByteCode(instructions) => share_instructions(instructions),
            Function::Native(_) => Arc::new(Vec::new()),
        }
    }
}

impl Clone for Function {
    fn clone(&self) -> (copy: Function)
        ensures
            copy == *self,
    {
        match self {
            Function::ByteCode(instructions) => Function::ByteCode(share_instructions(instructions)),
            Function::Native(number) => Function::Native(*number),
        }
    }
}

} // verus!
