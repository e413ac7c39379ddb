//! The module registry: a tree of named modules that hold functions and
//! string tables.

use crate::machine::Fault;
use crate::memory::lemma_allocation_keeps_interned;
use crate::memory::same_heap;
use crate::memory::string_is_interned;
use crate::memory::Memory;
use crate::program::function::clone_names;
use crate::program::function::same_names;
use crate::program::function::split_names;
use crate::program::function::split_path;
use crate::program::function::Function;
use crate::program::function::FunctionPath;
use vstd::prelude::*;

pub mod function;

verus! {

/// The place of a string table: the names of the modules that lead to the
/// module that owns it, and one more name last, which no lookup reads.
#[derive(Debug)]
pub struct StringTablePath {
    pub path: Vec<String>,
}

impl View for StringTablePath {
    type V = Seq<Seq<char>>;

    open spec fn view(&self) -> Seq<Seq<char>> {
        self.path@.map_values(|segment: String| segment@)
    }
}

impl StringTablePath {
    /// The path made of the given names.
    pub fn new(path: Vec<String>) -> (table_path: StringTablePath)
        ensures
            table_path.path == path,
    {
        StringTablePath { path }
    }

    /// The path that a text spells: its names are separated by `::`. The
    /// empty text spells the path of the root module's table.
    pub fn from_str(text: &str) -> (table_path: StringTablePath)
        ensures
            table_path@ == split_names(text@),
    {
        StringTablePath { path: split_path(text) }
    }

    /// Whether two paths name the same string table.
    pub fn same_as(&self, other: &StringTablePath) -> (same: bool)
        ensures
            same == (self@ == other@),
    {
        same_names(&self.path, &other.path)
    }
}

impl Clone for StringTablePath {
    fn clone(&self) -> (copy: StringTablePath)
        ensures
            copy@ == self@,
    {
        StringTablePath { path: clone_names(&self.path) }
    }
}

/// A function of a module, under its name.
#[derive(Debug)]
pub struct NamedFunction {
    pub name: String,
    pub function: Function,
}

/// A module: functions by name, a table of strings by index, and
/// submodules by name.
///
/// Where two functions or two submodules of one module bear the same name,
/// the first one is the one that a lookup finds.
#[derive(Debug)]
pub struct Module {
    pub module_name: String,
    pub functions: Vec<NamedFunction>,
    pub string_table: Vec<String>,
    pub sub_modules: Vec<Module>,
}

/// The index of the first of `modules` that bears `name`; their number where
/// none does.
pub open spec fn module_index(modules: Seq<Module>, name: Seq<char>, from: int) -> int
    decreases modules.len() - from,
{
    if from < 0 || from >= modules.len() {
        modules.len() as int
    } else if modules[from].module_name@ == name {
        from
    } else {
        module_index(modules, name, from + 1)
    }
}

/// The index of the first of `functions` that bears `name`; their number
/// where none does.
pub open spec fn function_index(functions: Seq<NamedFunction>, name: Seq<char>, from: int) -> int
    decreases functions.len() - from,
{
    if from < 0 || from >= functions.len() {
        functions.len() as int
    } else if functions[from].name@ == name {
        from
    } else {
        function_index(functions, name, from + 1)
    }
}

/// The index found lies at or after `from`, names a module that bears
/// `name`, and no module before it does.
pub proof fn lemma_module_index(modules: Seq<Module>, name: Seq<char>, from: int)
    requires
        0 <= from <= modules.len(),
    ensures
        from <= module_index(modules, name, from) <= modules.len(),
        module_index(modules, name, from) < modules.len() ==> modules[module_index(
            modules,
            name,
            from,
        )].module_name@ == name,
        forall|i: int|
            from <= i < module_index(modules, name, from) ==> (#[trigger] modules[i]).module_name@
                != name,
    decreases modules.len() - from,
{
    if from < modules.len() && modules[from].module_name@ != name {
        lemma_module_index(modules, name, from + 1);
    }
}

/// The index found lies at or after `from`, names a function that bears
/// `name`, and no function before it does.
pub proof fn lemma_function_index(functions: Seq<NamedFunction>, name: Seq<char>, from: int)
    requires
        0 <= from <= functions.len(),
    ensures
        from <= function_index(functions, name, from) <= functions.len(),
        function_index(functions, name, from) < functions.len() ==> functions[function_index(
            functions,
            name,
            from,
        )].name@ == name,
        forall|i: int|
            from <= i < function_index(functions, name, from) ==> (#[trigger] functions[i]).name@
                != name,
    decreases functions.len() - from,
{
    if from < functions.len() && functions[from].name@ != name {
        lemma_function_index(functions, name, from + 1);
    }
}

impl Module {
    /// The submodule that `names` lead to from this module, one name per
    /// level; none where a name finds no submodule.
    pub open spec fn descend(self, names: Seq<Seq<char>>) -> Option<Module>
        decreases names.len(),
    {
        if names.len() == 0 {
            Some(self)
        } else {
            let at = module_index(self.sub_modules@, names[0], 0);
            if at < self.sub_modules@.len() {
                self.sub_modules@[at].descend(names.drop_first())
            } else {
                None
            }
        }
    }

    /// The function of this module that bears `name`, where there is one.
    pub open spec fn own_function(self, name: Seq<char>) -> Option<Function> {
        let at = function_index(self.functions@, name, 0);
        if at < self.functions@.len() {
            Some(self.functions@[at].function)
        } else {
            None
        }
    }

    /// The function at `path`: all names but the last lead to its module, the
    /// last is its own.
    pub open spec fn function_at(self, path: Seq<Seq<char>>) -> Option<Function> {
        if path.len() == 0 {
            None
        } else {
            match self.descend(path.drop_last()) {
                Some(module) => module.own_function(path.last()),
                None => None,
            }
        }
    }

    /// The string at `index` in the table at `path`: all names but the last
    /// lead to the module that owns the table.
    pub open spec fn string_at(self, path: Seq<Seq<char>>, index: u64) -> Option<Seq<char>> {
        if path.len() == 0 {
            None
        } else {
            match self.descend(path.drop_last()) {
                Some(module) => if index < module.string_table@.len() {
                    Some(module.string_table@[index as int]@)
                } else {
                    None
                },
                None => None,
            }
        }
    }

    /// A module with the given name and contents.
    pub fn new(
        module_name: &str,
        functions: Vec<NamedFunction>,
        string_table: Vec<String>,
        sub_modules: Vec<Module>,
    ) -> (module: Module)
        ensures
            module.module_name@ == module_name@,
            module.functions == functions,
            module.string_table == string_table,
            module.sub_modules == sub_modules,
    {
        Module { module_name: String::from_str(module_name), functions, string_table, sub_modules }
    }

    /// The index of the first submodule that bears `name`.
    fn find_module(&self, name: &String) -> (at: usize)
        ensures
            at == module_index(self.sub_modules@, name@, 0),
            at <= self.sub_modules@.len(),
    {
        let mut i: usize = 0;
        while i < self.sub_modules.len()
            invariant
                i <= self.sub_modules@.len(),
                module_index(self.sub_modules@, name@, 0) == module_index(
                    self.sub_modules@,
                    name@,
                    i as int,
                ),
            decreases self.sub_modules@.len() - i,
        {
            if self.sub_modules[i].module_name == *name {
                return i;
            }
            i += 1;
        }
        i
    }

    /// The index of the first function that bears `name`.
    fn find_function(&self, name: &String) -> (at: usize)
        ensures
            at == function_index(self.functions@, name@, 0),
            at <= self.functions@.len(),
    {
        let mut i: usize = 0;
        while i < self.functions.len()
            invariant
                i <= self.functions@.len(),
                function_index(self.functions@, name@, 0) == function_index(
                    self.functions@,
                    name@,
                    i as int,
                ),
            decreases self.functions@.len() - i,
        {
            if self.functions[i].name == *name {
                return i;
            }
            i += 1;
        }
        i
    }

    /// The submodule that the names from `from` up to `to` lead to.
    fn find_descendant(&self, names: &Vec<String>, from: usize, to: usize) -> (found: Option<
        &Module,
    >)
        requires
            from <= to <= names@.len(),
        ensures
            match found {
                Some(module) => self.descend(
                    names@.map_values(|segment: String| segment@).subrange(from as int, to as int),
                ) == Some(*module),
                None => self.descend(
                    names@.map_values(|segment: String| segment@).subrange(from as int, to as int),
                ) is None,
            },
        decreases to - from,
    {
        let ghost all = names@.map_values(|segment: String| segment@);
        if from == to {
            Some(self)
        } else {
            let at = self.find_module(&names[from]);
            proof {
                assert(all.subrange(from as int, to as int).drop_first() =~= all.subrange(
                    from + 1,
                    to as int,
                ));
                assert(all.subrange(from as int, to as int)[0] == names@[from as int]@);
            }
            if at < self.sub_modules.len() {
                self.sub_modules[at].find_descendant(names, from + 1, to)
            } else {
                None
            }
        }
    }

    /// The function at `path`, where there is one: all names but the last
    /// lead to its module, the last is its own. The empty path names none.
    pub fn get_function(&self, path: &FunctionPath) -> (function: Option<Function>)
        ensures
            function == self.function_at(path@),
    {
        let len = path.path.len();
        if len == 0 {
            return None;
        }
        proof {
            let all = path.path@.map_values(|segment: String| segment@);
            assert(all.subrange(0, len - 1) =~= all.drop_last());
        }
        match self.find_descendant(&path.path, 0, len - 1) {
            Some(module) => {
                let at = module.find_function(&path.path[len - 1]);
                if at < module.functions.len() {
                    Some(module.functions[at].function.clone())
                } else {
                    None
                }
            },
            None => None,
        }
    }

    /// The string at `index` in the table at `path`, where there is one: all
    /// names of the path but the last lead to the module that owns the table.
    pub fn get_string(&self, path: &StringTablePath, index: u64) -> (string: Option<&str>)
        ensures
            match string {
                Some(text) => self.string_at(path@, index) == Some(text@),
                None => self.string_at(path@, index) is None,
            },
    {
        let len = path.path.len();
        if len == 0 {
            return None;
        }
        proof {
            let all = path.path@.map_values(|segment: String| segment@);
            assert(all.subrange(0, len - 1) =~= all.drop_last());
        }
        match self.find_descendant(&path.path, 0, len - 1) {
            Some(module) => {
                if index < module.string_table.len() as u64 {
                    Some(module.string_table[index as usize].as_str())
                } else {
                    None
                }
            },
            None => None,
        }
    }
}

/// A lookup of a function that goes through a submodule is a lookup in
/// that submodule.
pub proof fn lemma_function_through_child(module: Module, path: Seq<Seq<char>>)
    requires
        path.len() >= 2,
    ensures
        module.function_at(path) == ({
            let at = module_index(module.sub_modules@, path[0], 0);
            if at < module.sub_modules@.len() {
                module.sub_modules@[at].function_at(path.drop_first())
            } else {
                None
            }
        }),
{
    assert(path.drop_last().drop_first() =~= path.drop_first().drop_last());
    assert(path.drop_last()[0] == path[0]);
}

/// A lookup of a string that goes through a submodule is a lookup in that
/// submodule.
pub proof fn lemma_string_through_child(module: Module, path: Seq<Seq<char>>, index: u64)
    requires
        path.len() >= 2,
    ensures
        module.string_at(path, index) == ({
            let at = module_index(module.sub_modules@, path[0], 0);
            if at < module.sub_modules@.len() {
                module.sub_modules@[at].string_at(path.drop_first(), index)
            } else {
                None
            }
        }),
{
    assert(path.drop_last().drop_first() =~= path.drop_first().drop_last());
    assert(path.drop_last()[0] == path[0]);
}

/// Whether a module has neither functions nor strings nor submodules.
pub open spec fn is_bare(module: Module) -> bool {
    &&& module.functions@.len() == 0
    &&& module.string_table@.len() == 0
    &&& module.sub_modules@.len() == 0
}

/// A bare module holds nothing under any path.
pub proof fn lemma_bare_module_holds_nothing(module: Module, path: Seq<Seq<char>>, index: u64)
    requires
        is_bare(module),
    ensures
        module.function_at(path) is None,
        module.string_at(path, index) is None,
{
    if path.len() >= 2 {
        lemma_function_through_child(module, path);
        lemma_string_through_child(module, path, index);
    } else if path.len() == 1 {
        assert(path.drop_last() =~= Seq::<Seq<char>>::empty());
    }
}

/// Whether `after` is `before` with the submodule at `at` replaced by
/// another of the same name, or, where `at` is the number of submodules,
/// with one more submodule, whose name no submodule bore.
pub open spec fn child_replaced(before: Module, after: Module, at: int, name: Seq<char>) -> bool {
    &&& after.module_name == before.module_name
    &&& after.functions == before.functions
    &&& after.string_table == before.string_table
    &&& 0 <= at < after.sub_modules@.len()
    &&& after.sub_modules@[at].module_name@ == name
    &&& at == module_index(before.sub_modules@, name, 0)
    &&& if at < before.sub_modules@.len() {
        &&& after.sub_modules@.len() == before.sub_modules@.len()
        &&& forall|i: int|
            0 <= i < before.sub_modules@.len() && i != at ==> after.sub_modules@[i]
                == before.sub_modules@[i]
    } else {
        &&& after.sub_modules@.len() == before.sub_modules@.len() + 1
        &&& forall|i: int|
            0 <= i < before.sub_modules@.len() ==> after.sub_modules@[i] == before.sub_modules@[i]
    }
}

/// After a submodule was replaced or added, the first submodule of its name
/// is the new one, and the first submodule of any other name is the one it
/// was.
pub proof fn lemma_child_index_after(
    before: Module,
    after: Module,
    at: int,
    name: Seq<char>,
    other: Seq<char>,
)
    requires
        child_replaced(before, after, at, name),
    ensures
        other == name ==> module_index(after.sub_modules@, other, 0) == at,
        other != name ==> {
            let found = module_index(before.sub_modules@, other, 0);
            if found < before.sub_modules@.len() {
                module_index(after.sub_modules@, other, 0) == found && after.sub_modules@[found]
                    == before.sub_modules@[found]
            } else {
                module_index(after.sub_modules@, other, 0) >= after.sub_modules@.len()
            }
        },
{
    lemma_module_index(before.sub_modules@, name, 0);
    lemma_module_index(before.sub_modules@, other, 0);
    lemma_module_index(after.sub_modules@, other, 0);
    let found = module_index(before.sub_modules@, other, 0);
    let now = module_index(after.sub_modules@, other, 0);
    if other == name {
        if now < at {
            assert(after.sub_modules@[now] == before.sub_modules@[now]);
        }
    } else {
        if found < before.sub_modules@.len() {
            assert(found != at);
            assert(after.sub_modules@[found] == before.sub_modules@[found]);
            if now < found {
                if now != at {
                    assert(after.sub_modules@[now] == before.sub_modules@[now]);
                }
            }
        } else {
            if now < after.sub_modules@.len() {
                if now != at {
                    assert(after.sub_modules@[now] == before.sub_modules@[now]);
                }
            }
        }
    }
}

/// What a lookup of a function gives after a submodule was replaced or
/// added: a lookup through that submodule is a lookup in the new one, and any
/// other lookup gives what it gave. Where the submodule was added, the lookup
/// through it gave nothing before.
pub proof fn lemma_function_after_child(
    before: Module,
    after: Module,
    at: int,
    name: Seq<char>,
    path: Seq<Seq<char>>,
)
    requires
        child_replaced(before, after, at, name),
    ensures
        path.len() >= 2 && path[0] == name ==> after.function_at(path)
            == after.sub_modules@[at].function_at(path.drop_first()),
        path.len() >= 2 && path[0] == name ==> before.function_at(path) == (if at
            < before.sub_modules@.len() {
            before.sub_modules@[at].function_at(path.drop_first())
        } else {
            None
        }),
        !(path.len() >= 2 && path[0] == name) ==> after.function_at(path) == before.function_at(
            path,
        ),
{
    if path.len() >= 2 {
        lemma_function_through_child(before, path);
        lemma_function_through_child(after, path);
        lemma_child_index_after(before, after, at, name, path[0]);
    } else if path.len() == 1 {
        assert(path.drop_last() =~= Seq::<Seq<char>>::empty());
    }
}

/// What a lookup of a string gives after a submodule was replaced or added:
/// as `lemma_function_after_child` says of functions.
pub proof fn lemma_string_after_child(
    before: Module,
    after: Module,
    at: int,
    name: Seq<char>,
    path: Seq<Seq<char>>,
    index: u64,
)
    requires
        child_replaced(before, after, at, name),
    ensures
        path.len() >= 2 && path[0] == name ==> after.string_at(path, index)
            == after.sub_modules@[at].string_at(path.drop_first(), index),
        path.len() >= 2 && path[0] == name ==> before.string_at(path, index) == (if at
            < before.sub_modules@.len() {
            before.sub_modules@[at].string_at(path.drop_first(), index)
        } else {
            None
        }),
        !(path.len() >= 2 && path[0] == name) ==> after.string_at(path, index) == before.string_at(
            path,
            index,
        ),
{
    if path.len() >= 2 {
        lemma_string_through_child(before, path, index);
        lemma_string_through_child(after, path, index);
        lemma_child_index_after(before, after, at, name, path[0]);
    } else if path.len() == 1 {
        assert(path.drop_last() =~= Seq::<Seq<char>>::empty());
    }
}

impl Module {
    /// The index of the first submodule that bears `name`; where there is
    /// none, a bare submodule of that name is added, and its index given.
    fn child_for(&mut self, name: &String) -> (at: usize)
        ensures
            child_replaced(*old(self), *final(self), at as int, name@),
            at < old(self).sub_modules@.len() ==> *final(self) == *old(self),
            at >= old(self).sub_modules@.len() ==> is_bare(final(self).sub_modules@[at as int]),
    {
        let at = self.find_module(name);
        proof {
            lemma_module_index(self.sub_modules@, name@, 0);
        }
        if at == self.sub_modules.len() {
            let module = Module {
                module_name: name.clone(),
                functions: Vec::new(),
                string_table: Vec::new(),
                sub_modules: Vec::new(),
            };
            self.sub_modules.push(module);
        }
        at
    }

    /// Puts `function` under the names from `from` on: all of them but the
    /// last lead to its module, from this one on.
    fn put_function(&mut self, names: &Vec<String>, from: usize, function: Function)
        requires
            from < names@.len(),
        ensures
            final(self).module_name == old(self).module_name,
            final(self).function_at(
                names@.map_values(|segment: String| segment@).subrange(
                    from as int,
                    names@.len() as int,
                ),
            ) == Some(function),
            forall|other: Seq<Seq<char>>|
                other != names@.map_values(|segment: String| segment@).subrange(
                    from as int,
                    names@.len() as int,
                ) ==> final(self).function_at(other) == old(self).function_at(other),
            forall|other: Seq<Seq<char>>, index: u64|
                final(self).string_at(other, index) == old(self).string_at(other, index),
        decreases names@.len() - from,
    {
        let ghost all = names@.map_values(|segment: String| segment@);
        let ghost path = all.subrange(from as int, names@.len() as int);
        if from == names.len() - 1 {
            let at = self.find_function(&names[from]);
            let entry = NamedFunction { name: names[from].clone(), function };
            let ghost before = self.functions@;
            if at < self.functions.len() {
                self.functions.set(at, entry);
            } else {
                self.functions.push(entry);
            }
            proof {
                let name = names@[from as int]@;
                assert(path =~= seq![name]);
                assert(path.drop_last() =~= Seq::<Seq<char>>::empty());
                lemma_function_put(before, self.functions@, entry, name);
                assert forall|other: Seq<Seq<char>>| other != path implies final(self).function_at(
                    other,
                ) == old(self).function_at(other) by {
                    if other.len() >= 2 {
                        lemma_function_through_child(*old(self), other);
                        lemma_function_through_child(*self, other);
                    } else if other.len() == 1 {
                        assert(other.drop_last() =~= Seq::<Seq<char>>::empty());
                        assert(other[0] != name) by {
                            if other[0] == name {
                                assert(other =~= path);
                            }
                        }
                        lemma_function_put_leaves(before, self.functions@, entry, other[0]);
                    }
                }
                assert forall|other: Seq<Seq<char>>, index: u64|
                    final(self).string_at(other, index) == old(self).string_at(other, index) by {
                    if other.len() >= 2 {
                        lemma_string_through_child(*old(self), other, index);
                        lemma_string_through_child(*self, other, index);
                    } else if other.len() == 1 {
                        assert(other.drop_last() =~= Seq::<Seq<char>>::empty());
                    }
                }
            }
        } else {
            let at = self.child_for(&names[from]);
            let ghost between = *self;
            self.sub_modules[at].put_function(names, from + 1, function);
            proof {
                let name = names@[from as int]@;
                let rest = all.subrange(from + 1, names@.len() as int);
                let child = between.sub_modules@[at as int];
                assert(path.drop_first() =~= rest);
                assert(path[0] == name);
                assert(child_replaced(*old(self), *self, at as int, name));
                lemma_function_after_child(*old(self), *self, at as int, name, path);
                assert forall|other: Seq<Seq<char>>| other != path implies final(self).function_at(
                    other,
                ) == old(self).function_at(other) by {
                    lemma_function_after_child(*old(self), *self, at as int, name, other);
                    if other.len() >= 2 && other[0] == name {
                        assert(other.drop_first() != rest) by {
                            if other.drop_first() == rest {
                                assert(other =~= seq![other[0]] + other.drop_first());
                                assert(path =~= seq![path[0]] + path.drop_first());
                            }
                        }
                        if at >= old(self).sub_modules@.len() {
                            lemma_bare_module_holds_nothing(child, other.drop_first(), 0);
                        }
                    }
                }
                assert forall|other: Seq<Seq<char>>, index: u64|
                    final(self).string_at(other, index) == old(self).string_at(other, index) by {
                    lemma_string_after_child(*old(self), *self, at as int, name, other, index);
                    if other.len() >= 2 && other[0] == name {
                        if at >= old(self).sub_modules@.len() {
                            lemma_bare_module_holds_nothing(child, other.drop_first(), index);
                        }
                    }
                }
            }
        }
    }

    /// Puts a function under a path: all names of the path but the last
    /// lead to its module, and the modules on the way that are missing are
    /// created. A function that was under the path is replaced. The empty
    /// path names no place, and nothing is added.
    pub fn add_function(&mut self, path: &FunctionPath, function: Function)
        ensures
            path@.len() == 0 ==> *final(self) == *old(self),
            path@.len() > 0 ==> final(self).function_at(path@) == Some(function),
            forall|other: Seq<Seq<char>>|
                other != path@ ==> final(self).function_at(other) == old(self).function_at(other),
            forall|other: Seq<Seq<char>>, index: u64|
                final(self).string_at(other, index) == old(self).string_at(other, index),
    {
        if path.path.len() > 0 {
            proof {
                let all = path.path@.map_values(|segment: String| segment@);
                assert(all.subrange(0, all.len() as int) =~= all);
            }
            self.put_function(&path.path, 0, function);
        }
    }
}

/// Whether two paths of string tables name the table of the same module:
/// all their names but the last are the same.
pub open spec fn same_table(left: Seq<Seq<char>>, right: Seq<Seq<char>>) -> bool {
    left.len() > 0 && right.len() > 0 && left.drop_last() == right.drop_last()
}

impl Module {
    /// Appends `string` to the table of the module that the names from
    /// `from` on, but for the last, lead to, and gives its index.
    fn put_string(&mut self, names: &Vec<String>, from: usize, string: &str) -> (index: u64)
        requires
            from < names@.len(),
        ensures
            final(self).module_name == old(self).module_name,
            ({
                let path = names@.map_values(|segment: String| segment@).subrange(
                    from as int,
                    names@.len() as int,
                );
                &&& final(self).string_at(path, index) == Some(string@)
                &&& old(self).string_at(path, index) is None
                &&& index > 0 ==> old(self).string_at(path, (index - 1) as u64) is Some
                &&& forall|other: Seq<Seq<char>>, at: u64|
                    !(same_table(other, path) && at == index) ==> final(self).string_at(other, at)
                        == old(self).string_at(other, at)
            }),
            forall|other: Seq<Seq<char>>|
                final(self).function_at(other) == old(self).function_at(other),
        decreases names@.len() - from,
    {
        let ghost all = names@.map_values(|segment: String| segment@);
        let ghost path = all.subrange(from as int, names@.len() as int);
        if from == names.len() - 1 {
            let index = self.string_table.len() as u64;
            self.string_table.push(String::from_str(string));
            proof {
                assert(path.drop_last() =~= Seq::<Seq<char>>::empty());
                assert forall|other: Seq<Seq<char>>, at: u64|
                    !(same_table(other, path) && at == index) implies final(self).string_at(
                    other,
                    at,
                ) == old(self).string_at(other, at) by {
                    if other.len() >= 2 {
                        lemma_string_through_child(*old(self), other, at);
                        lemma_string_through_child(*self, other, at);
                    } else if other.len() == 1 {
                        assert(other.drop_last() =~= Seq::<Seq<char>>::empty());
                    }
                }
                assert forall|other: Seq<Seq<char>>|
                    final(self).function_at(other) == old(self).function_at(other) by {
                    if other.len() >= 2 {
                        lemma_function_through_child(*old(self), other);
                        lemma_function_through_child(*self, other);
                    } else if other.len() == 1 {
                        assert(other.drop_last() =~= Seq::<Seq<char>>::empty());
                    }
                }
            }
            index
        } else {
            let at = self.child_for(&names[from]);
            let ghost between = *self;
            let index = self.sub_modules[at].put_string(names, from + 1, string);
            proof {
                let name = names@[from as int]@;
                let rest = all.subrange(from + 1, names@.len() as int);
                let child = between.sub_modules@[at as int];
                assert(path.drop_first() =~= rest);
                assert(path[0] == name);
                assert(child_replaced(*old(self), *self, at as int, name));
                lemma_string_after_child(*old(self), *self, at as int, name, path, index);
                if index > 0 {
                    lemma_string_after_child(
                        *old(self),
                        *self,
                        at as int,
                        name,
                        path,
                        (index - 1) as u64,
                    );
                }
                if at >= old(self).sub_modules@.len() {
                    lemma_bare_module_holds_nothing(child, rest, index);
                    if index > 0 {
                        lemma_bare_module_holds_nothing(child, rest, (index - 1) as u64);
                    }
                }
                assert forall|other: Seq<Seq<char>>, i: u64|
                    !(same_table(other, path) && i == index) implies final(self).string_at(
                    other,
                    i,
                ) == old(self).string_at(other, i) by {
                    lemma_string_after_child(*old(self), *self, at as int, name, other, i);
                    if other.len() >= 2 && other[0] == name {
                        if same_table(other.drop_first(), rest) {
                            assert(other.drop_last() =~= seq![name] + other.drop_first().drop_last());
                            assert(path.drop_last() =~= seq![name] + rest.drop_last());
                        }
                        if at >= old(self).sub_modules@.len() {
                            lemma_bare_module_holds_nothing(child, other.drop_first(), i);
                        }
                    }
                }
                assert forall|other: Seq<Seq<char>>|
                    final(self).function_at(other) == old(self).function_at(other) by {
                    lemma_function_after_child(*old(self), *self, at as int, name, other);
                    if other.len() >= 2 && other[0] == name {
                        if at >= old(self).sub_modules@.len() {
                            lemma_bare_module_holds_nothing(child, other.drop_first(), 0);
                        }
                    }
                }
            }
            index
        }
    }

    /// Appends a string to the table at a path and gives its index: all
    /// names of the path but the last lead to the module that owns the table,
    /// and the modules on the way that are missing are created. The empty
    /// path names no table: nothing is added, and no index given.
    pub fn add_string(&mut self, path: &StringTablePath, string: &str) -> (index: Option<u64>)
        ensures
            path@.len() == 0 ==> index is None && *final(self) == *old(self),
            path@.len() > 0 ==> index is Some,
            index matches Some(at) ==> {
                &&& final(self).string_at(path@, at) == Some(string@)
                &&& old(self).string_at(path@, at) is None
                &&& at > 0 ==> old(self).string_at(path@, (at - 1) as u64) is Some
            },
            forall|other: Seq<Seq<char>>, at: u64|
                !(same_table(other, path@) && index == Some(at)) ==> final(self).string_at(
                    other,
                    at,
                ) == old(self).string_at(other, at),
            forall|other: Seq<Seq<char>>|
                final(self).function_at(other) == old(self).function_at(other),
    {
        if path.path.len() > 0 {
            proof {
                let all = path.path@.map_values(|segment: String| segment@);
                assert(all.subrange(0, all.len() as int) =~= all);
            }
            Some(self.put_string(&path.path, 0, string))
        } else {
            None
        }
    }

    /// Makes `module` a submodule of this one, in the place of the first
    /// submodule of its name or, where there is none, as one more.
    pub fn add_sub_module(&mut self, module: Module)
        ensures
            child_replaced(
                *old(self),
                *final(self),
                module_index(old(self).sub_modules@, module.module_name@, 0),
                module.module_name@,
            ),
            final(self).sub_modules@[module_index(
                old(self).sub_modules@,
                module.module_name@,
                0,
            )] == module,
    {
        let at = self.find_module(&module.module_name);
        proof {
            lemma_module_index(self.sub_modules@, module.module_name@, 0);
        }
        if at < self.sub_modules.len() {
            self.sub_modules.set(at, module);
        } else {
            self.sub_modules.push(module);
        }
    }
}

/// The path of the string table of the module that `names` lead to from the
/// module at `prefix`: the names that lead to the module, and an empty name
/// last.
pub open spec fn table_path(prefix: Seq<Seq<char>>, names: Seq<Seq<char>>) -> Seq<Seq<char>> {
    (prefix + names).push(Seq::empty())
}

/// Whether every string of the module, and of the modules below it that a
/// path leads to, is interned under the path of its table and its index;
/// `prefix` is the path that leads to the module itself.
pub open spec fn strings_interned(module: Module, prefix: Seq<Seq<char>>, memory: &Memory) -> bool {
    forall|names: Seq<Seq<char>>, index: u64|
        module.descend(names) matches Some(below) && index < below.string_table@.len()
            ==> #[trigger] string_is_interned(memory, table_path(prefix, names), index)
}

/// Whether neither the module nor any module below it holds a string.
pub open spec fn holds_no_string(module: Module) -> bool
    decreases module,
{
    &&& module.string_table@.len() == 0
    &&& forall|i: int|
        0 <= i < module.sub_modules@.len() ==> holds_no_string(#[trigger] module.sub_modules@[i])
}

/// Whether the heap has kept every object and every interned string.
pub open spec fn heap_kept(before: &Memory, after: &Memory) -> bool {
    &&& forall|handle: u64| #[trigger]
        before.objects().contains_key(handle) ==> after.objects().contains_key(handle)
            && after.objects()[handle] == before.objects()[handle]
    &&& forall|path: Seq<Seq<char>>, index: u64|
        string_is_interned(before, path, index) ==> string_is_interned(after, path, index)
}

/// A heap that has kept everything of a heap that has kept everything of a
/// third has kept everything of the third.
pub proof fn lemma_heap_kept_chain(first: &Memory, second: &Memory, third: &Memory)
    requires
        heap_kept(first, second),
        heap_kept(second, third),
    ensures
        heap_kept(first, third),
{
    assert forall|path: Seq<Seq<char>>, index: u64|
        string_is_interned(first, path, index) implies string_is_interned(third, path, index) by {
        assert(string_is_interned(second, path, index));
    }
    assert forall|handle: u64| first.objects().contains_key(handle) implies third.objects().contains_key(
        handle,
    ) && third.objects()[handle] == first.objects()[handle] by {
        assert(second.objects().contains_key(handle));
    }
}

/// The allocation of a string-table reference keeps everything of the heap,
/// and where it succeeds, its string is interned.
pub proof fn lemma_allocation_keeps_heap(
    before: &Memory,
    after: &Memory,
    path: Seq<Seq<char>>,
    index: u64,
    result: Result<crate::value::Value, Fault>,
)
    requires
        crate::memory::string_ref_allocated(before, after, path, index, result),
    ensures
        heap_kept(before, after),
        result is Ok ==> string_is_interned(after, path, index),
{
    assert forall|other: Seq<Seq<char>>, at: u64|
        string_is_interned(before, other, at) implies string_is_interned(after, other, at) by {
        lemma_allocation_keeps_interned(before, after, path, index, result, other, at);
    }
    lemma_allocation_keeps_interned(before, after, path, index, result, path, index);
}

impl Module {
    /// Interns every string of this module and of the modules below it, as a
    /// string-table reference under the path of its table and its index. The
    /// path of a module's table is the path of the module and an empty name
    /// last: as text, the names of the modules with `::` after each.
    ///
    /// An allocation that fails ends the walk with `MemoryError`; what was
    /// interned by then stays interned. Where neither this module nor any
    /// module below it holds a string, nothing is allocated: the walk
    /// succeeds and leaves the heap as it was.
    pub fn add_strings_to_memory(&self, memory: &mut Memory) -> (result: Result<(), Fault>)
        ensures
            heap_kept(old(memory), final(memory)),
            holds_no_string(*self) ==> result is Ok && same_heap(old(memory), final(memory)),
            result is Ok ==> strings_interned(*self, Seq::empty(), final(memory)),
            result matches Err(fault) ==> fault is MemoryError,
    {
        let mut path: Vec<String> = Vec::new();
        assert(path@.map_values(|segment: String| segment@) =~= Seq::<Seq<char>>::empty());
        self.add_strings_to_memory_helper(memory, &mut path)
    }

    /// Interns every string of this module and of the modules below it;
    /// `path` leads to this module.
    fn add_strings_to_memory_helper(&self, memory: &mut Memory, path: &mut Vec<String>) -> (result:
        Result<(), Fault>)
        ensures
            heap_kept(old(memory), final(memory)),
            holds_no_string(*self) ==> result is Ok && same_heap(old(memory), final(memory)),
            result is Ok ==> final(path)@.map_values(|segment: String| segment@) == old(
                path,
            )@.map_values(|segment: String| segment@),
            result is Ok ==> strings_interned(
                *self,
                old(path)@.map_values(|segment: String| segment@),
                final(memory),
            ),
            result matches Err(fault) ==> fault is MemoryError,
        decreases self,
    {
        let ghost prefix = path@.map_values(|segment: String| segment@);
        let mut table = clone_names(path);
        table.push(String::new());
        let table = StringTablePath::new(table);
        proof {
            assert(table@ =~= table_path(prefix, Seq::empty()));
        }
        let mut index: usize = 0;
        while index < self.string_table.len()
            invariant
                index <= self.string_table@.len(),
                table@ == table_path(prefix, Seq::empty()),
                heap_kept(old(memory), memory),
                index == 0 ==> same_heap(old(memory), memory),
                forall|at: u64| at < index ==> string_is_interned(memory, table@, at),
            decreases self.string_table@.len() - index,
        {
            let ghost before = *memory;
            let allocated = memory.allocate_string_ref(&table, index as u64);
            proof {
                lemma_allocation_keeps_heap(&before, memory, table@, index as u64, allocated);
                lemma_heap_kept_chain(old(memory), &before, memory);
                assert forall|at: u64| at < index implies string_is_interned(
                    memory,
                    table@,
                    at,
                ) by {
                    assert(string_is_interned(&before, table@, at));
                }
            }
            match allocated {
                Ok(_) => {},
                Err(fault) => {
                    return Err(fault);
                },
            }
            index += 1;
        }
        let mut child: usize = 0;
        while child < self.sub_modules.len()
            invariant
                child <= self.sub_modules@.len(),
                path@.map_values(|segment: String| segment@) == prefix,
                table@ == table_path(prefix, Seq::empty()),
                heap_kept(old(memory), memory),
                holds_no_string(*self) ==> same_heap(old(memory), memory),
                forall|at: u64|
                    at < self.string_table@.len() ==> string_is_interned(memory, table@, at),
                forall|done: int|
                    0 <= done < child ==> strings_interned(
                        #[trigger] self.sub_modules@[done],
                        prefix.push(self.sub_modules@[done].module_name@),
                        memory,
                    ),
            decreases self.sub_modules@.len() - child,
        {
            let ghost before = *memory;
            path.push(self.sub_modules[child].module_name.clone());
            proof {
                assert(path@.map_values(|segment: String| segment@) =~= prefix.push(
                    self.sub_modules@[child as int].module_name@,
                ));
            }
            let walked = self.sub_modules[child].add_strings_to_memory_helper(memory, path);
            proof {
                lemma_heap_kept_chain(old(memory), &before, memory);
                if holds_no_string(*self) {
                    assert(holds_no_string(self.sub_modules@[child as int]));
                }
            }
            match walked {
                Ok(_) => {},
                Err(fault) => {
                    return Err(fault);
                },
            }
            let ghost pushed = path@;
            path.pop();
            proof {
                assert(path@ =~= pushed.drop_last());
                assert(path@.map_values(|segment: String| segment@) =~= pushed.map_values(
                    |segment: String| segment@,
                ).drop_last());
                assert(path@.map_values(|segment: String| segment@) =~= prefix);
                assert forall|at: u64| at < self.string_table@.len() implies string_is_interned(
                    memory,
                    table@,
                    at,
                ) by {
                    assert(string_is_interned(&before, table@, at));
                }
                assert forall|done: int| 0 <= done < child implies strings_interned(
                    #[trigger] self.sub_modules@[done],
                    prefix.push(self.sub_modules@[done].module_name@),
                    memory,
                ) by {
                    let below = self.sub_modules@[done];
                    let lead = prefix.push(below.module_name@);
                    assert(strings_interned(below, lead, &before));
                    assert forall|names: Seq<Seq<char>>, at: u64|
                        below.descend(names) matches Some(found) && at
                            < found.string_table@.len() implies #[trigger] string_is_interned(
                        memory,
                        table_path(lead, names),
                        at,
                    ) by {
                        assert(string_is_interned(&before, table_path(lead, names), at));
                    }
                }
            }
            child += 1;
        }
        proof {
            assert forall|names: Seq<Seq<char>>, at: u64|
                self.descend(names) matches Some(found) && at
                    < found.string_table@.len() implies #[trigger] string_is_interned(
                memory,
                table_path(prefix, names),
                at,
            ) by {
                if names.len() == 0 {
                    assert(names =~= Seq::<Seq<char>>::empty());
                } else {
                    let first = module_index(self.sub_modules@, names[0], 0);
                    lemma_module_index(self.sub_modules@, names[0], 0);
                    let below = self.sub_modules@[first];
                    let lead = prefix.push(below.module_name@);
                    assert(strings_interned(below, lead, memory));
                    assert(table_path(lead, names.drop_first()) =~= table_path(prefix, names));
                    assert(string_is_interned(memory, table_path(lead, names.drop_first()), at));
                }
            }
        }
        Ok(())
    }
}

/// After a function was put under a name, in the place of the first
/// function of that name or else at the end, the first function of the name
/// is the one that was put.
pub proof fn lemma_function_put(
    before: Seq<NamedFunction>,
    after: Seq<NamedFunction>,
    entry: NamedFunction,
    name: Seq<char>,
)
    requires
        entry.name@ == name,
        after == if function_index(before, name, 0) < before.len() {
            before.update(function_index(before, name, 0), entry)
        } else {
            before.push(entry)
        },
    ensures
        function_index(after, name, 0) < after.len(),
        after[function_index(after, name, 0)] == entry,
{
    let at = function_index(before, name, 0);
    lemma_function_index(before, name, 0);
    lemma_function_index(after, name, 0);
    assert(after[at] == entry);
    let found = function_index(after, name, 0);
    if found < at {
        assert(after[found] == before[found]);
    }
}

/// Putting a function under one name leaves the first function of any other
/// name what it was.
pub proof fn lemma_function_put_leaves(
    before: Seq<NamedFunction>,
    after: Seq<NamedFunction>,
    entry: NamedFunction,
    other: Seq<char>,
)
    requires
        entry.name@ != other,
        after == if function_index(before, entry.name@, 0) < before.len() {
            before.update(function_index(before, entry.name@, 0), entry)
        } else {
            before.push(entry)
        },
    ensures
        function_index(before, other, 0) < before.len() ==> function_index(after, other, 0)
            == function_index(before, other, 0) && after[function_index(before, other, 0)]
            == before[function_index(before, other, 0)],
        function_index(before, other, 0) >= before.len() ==> function_index(after, other, 0)
            >= after.len(),
{
    let at = function_index(before, entry.name@, 0);
    lemma_function_index(before, entry.name@, 0);
    lemma_function_index(before, other, 0);
    lemma_function_index(after, other, 0);
    let first = function_index(before, other, 0);
    let found = function_index(after, other, 0);
    if first < before.len() {
        assert(first != at);
        assert(after[first] == before[first]);
        if found < first {
            if found != at {
                assert(after[found] == before[found]);
            }
        }
    } else {
        if found < after.len() {
            if found < before.len() && found != at {
                assert(after[found] == before[found]);
            }
        }
    }
}

impl Default for Module {
    fn default() -> (module: Module)
        ensures
            module.module_name@.len() == 0,
            module.functions@.len() == 0,
            module.string_table@.len() == 0,
            module.sub_modules@.len() == 0,
    {
        Module {
            module_name: String::new(),
            functions: Vec::new(),
            string_table: Vec::new(),
            sub_modules: Vec::new(),
        }
    }
}

} // verus!
