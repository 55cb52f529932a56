//! The ordered list of command modules and the lookup of a command by name.

use vstd::prelude::*;

verus! {

/// One command of a module: its identifier, the names that trigger it, and
/// the texts shown for it.
#[derive(Debug, PartialEq, Eq)]
pub struct CommandEntry {
    pub id: u32,
    pub aliases: Vec<String>,
    pub description: String,
    pub help: String,
}

/// What a module declares about itself.
#[derive(Debug, PartialEq, Eq)]
pub struct ModuleDescriptor {
    pub name: String,
    pub description: String,
    pub commands: Vec<CommandEntry>,
}

/// The active modules, in the order in which they were registered.
#[derive(Debug, PartialEq, Eq)]
pub struct Registry {
    pub modules: Vec<ModuleDescriptor>,
}

/// A command found in the registry: the module's position and the command's
/// identifier within that module.
#[derive(Clone, Copy, PartialEq, Eq, Structural, Debug)]
pub struct CommandRef {
    pub module: usize,
    pub id: u32,
}

impl CommandEntry {
    /// Whether `name` is one of this command's aliases.
    pub open spec fn has_alias(&self, name: Seq<char>) -> bool {
        exists|j: int| 0 <= j < self.aliases@.len() && (#[trigger] self.aliases@[j])@ == name
    }

    /// Tells whether `name` is one of this command's aliases.
    pub fn matches(&self, name: &String) -> (b: bool)
        ensures
            b == self.has_alias(name@),
    {
        let mut j: usize = 0;
        while j < self.aliases.len()
            invariant
                j <= self.aliases@.len(),
                forall|k: int| 0 <= k < j ==> (#[trigger] self.aliases@[k])@ != name@,
            decreases self.aliases@.len() - j,
        {
            if self.aliases[j] == *name {
                return true;
            }
            j = j + 1;
        }
        false
    }
}

impl ModuleDescriptor {
    /// No identifier is declared twice.
    pub open spec fn wf(&self) -> bool {
        forall|i: int, j: int|
            0 <= i < j < self.commands@.len() ==> (#[trigger] self.commands@[i]).id != (
            #[trigger] self.commands@[j]).id
    }

    /// The position of the first command with the alias `name`, or the number
    /// of commands when there is none.
    pub open spec fn first_match(&self, name: Seq<char>) -> int {
        first_entry_from(self.commands@, name, 0)
    }

    /// Whether some command of this module has the alias `name`.
    pub open spec fn declares_alias(&self, name: Seq<char>) -> bool {
        exists|i: int| 0 <= i < self.commands@.len() && (#[trigger] self.commands@[i]).has_alias(name)
    }

    /// Whether this module declares the identifier `id`.
    pub open spec fn declares(&self, id: u32) -> bool {
        exists|i: int| 0 <= i < self.commands@.len() && (#[trigger] self.commands@[i]).id == id
    }

    /// The identifier of the first command that has the alias `name`.
    pub fn find_alias(&self, name: &String) -> (res: Option<u32>)
        ensures
            res is Some <==> self.declares_alias(name@),
            res is Some ==> {
                &&& 0 <= self.first_match(name@) < self.commands@.len()
                &&& res == Some(self.commands@[self.first_match(name@)].id)
            },
    {
        let mut i: usize = 0;
        while i < self.commands.len()
            invariant
                i <= self.commands@.len(),
                forall|k: int| 0 <= k < i ==> !(#[trigger] self.commands@[k]).has_alias(name@),
                self.first_match(name@) == first_entry_from(self.commands@, name@, i as int),
            decreases self.commands@.len() - i,
        {
            if self.commands[i].matches(name) {
                return Some(self.commands[i].id);
            }
            i = i + 1;
        }
        None
    }
}

impl ModuleDescriptor {
    /// The position of the command with the identifier `id`, or the number
    /// of commands when the module does not declare it.
    pub open spec fn position_of(&self, id: u32) -> int {
        first_id_from(self.commands@, id, 0)
    }

    /// The module's name.
    pub fn name(&self) -> (res: &String)
        ensures
            res == self.name,
    {
        &self.name
    }

    /// A short text that says what the module is for.
    pub fn description(&self) -> (res: &String)
        ensures
            res == self.description,
    {
        &self.description
    }

    /// The commands that the module declares.
    pub fn commands(&self) -> (res: &Vec<CommandEntry>)
        ensures
            res == self.commands,
    {
        &self.commands
    }

    /// The command with the identifier `id`, if the module declares it.
    pub fn find_command(&self, id: u32) -> (res: Option<&CommandEntry>)
        ensures
            res is Some <==> self.declares(id),
            res is Some ==> {
                &&& 0 <= self.position_of(id) < self.commands@.len()
                &&& *res->0 == self.commands@[self.position_of(id)]
                &&& res->0.id == id
            },
    {
        let mut i: usize = 0;
        while i < self.commands.len()
            invariant
                i <= self.commands@.len(),
                forall|k: int| 0 <= k < i ==> (#[trigger] self.commands@[k]).id != id,
                self.position_of(id) == first_id_from(self.commands@, id, i as int),
            decreases self.commands@.len() - i,
        {
            if self.commands[i].id == id {
                return Some(&self.commands[i]);
            }
            i = i + 1;
        }
        None
    }

    /// The short description of the command `id`, which the module must
    /// declare.
    pub fn command_description(&self, id: u32) -> (res: &String)
        requires
            self.declares(id),
        ensures
            0 <= self.position_of(id) < self.commands@.len(),
            *res == self.commands@[self.position_of(id)].description,
    {
        &self.find_command(id).unwrap().description
    }

    /// The help text of the command `id`, which the module must declare.
    pub fn command_help_message(&self, id: u32) -> (res: &String)
        requires
            self.declares(id),
        ensures
            0 <= self.position_of(id) < self.commands@.len(),
            *res == self.commands@[self.position_of(id)].help,
    {
        &self.find_command(id).unwrap().help
    }
}

/// A command to run: the module's position in the registry, the command's
/// identifier within that module, and the argument text.
#[derive(Debug, PartialEq, Eq)]
pub struct CommandInvocation {
    pub module: usize,
    pub id: u32,
    pub text: String,
}

/// The lower-case form of a text, as the standard library computes it.
pub uninterp spec fn lowercase(text: Seq<char>) -> Seq<char>;

/// Calls `str::to_lowercase` of the standard library. The contract only
/// gives the result a name: the lower-case form depends on the text alone.
#[verifier::external_body]
pub(crate) fn to_lowercase(text: &str) -> (res: String)
    ensures
        res@ == lowercase(text@),
{
    text.to_lowercase()
}

impl Registry {
    /// Every module is well formed.
    pub open spec fn wf(&self) -> bool {
        forall|i: int| 0 <= i < self.modules@.len() ==> (#[trigger] self.modules@[i]).wf()
    }

    /// The position of the first module that declares the alias `name`, or
    /// the number of modules when none does.
    pub open spec fn first_module(&self, name: Seq<char>) -> int {
        first_module_from(self.modules@, name, 0)
    }

    /// The command that `name` stands for: in the first module, in order of
    /// registration, that declares the alias, the first command that has it.
    pub open spec fn lookup(&self, name: Seq<char>) -> Option<CommandRef> {
        let m = self.first_module(name);
        if 0 <= m < self.modules@.len() {
            let module = self.modules@[m];
            Some(CommandRef { module: m as usize, id: module.commands@[module.first_match(name)].id })
        } else {
            None
        }
    }

    /// A registry without modules.
    pub fn new() -> (res: Registry)
        ensures
            res.modules@.len() == 0,
            res.wf(),
    {
        Registry { modules: Vec::new() }
    }

    /// Adds a module after those already registered.
    pub fn register(&mut self, module: ModuleDescriptor)
        ensures
            final(self).modules@ == old(self).modules@.push(module),
            final(self).wf() == (old(self).wf() && module.wf()),
    {
        self.modules.push(module);
        proof {
            if old(self).wf() && module.wf() {
                assert forall|i: int| 0 <= i < self.modules@.len() implies (
                #[trigger] self.modules@[i]).wf() by {
                    if i < old(self).modules@.len() {
                        assert(self.modules@[i] == old(self).modules@[i]);
                    }
                }
            } else if self.wf() {
                assert(self.modules@[old(self).modules@.len() as int].wf());
                assert forall|i: int| 0 <= i < old(self).modules@.len() implies (
                #[trigger] old(self).modules@[i]).wf() by {
                    assert(self.modules@[i] == old(self).modules@[i]);
                }
            }
        }
    }

    /// The registered modules, in registration order.
    pub fn get_modules(&self) -> (res: &Vec<ModuleDescriptor>)
        ensures
            res == self.modules,
    {
        &self.modules
    }

    /// Finds the command with the alias `name`, which is compared as it is.
    pub fn find_command(&self, name: &String) -> (res: Option<CommandRef>)
        ensures
            res == self.lookup(name@),
    {
        let mut i: usize = 0;
        while i < self.modules.len()
            invariant
                i <= self.modules@.len(),
                self.first_module(name@) == first_module_from(self.modules@, name@, i as int),
            decreases self.modules@.len() - i,
        {
            match self.modules[i].find_alias(name) {
                Some(id) => {
                    return Some(CommandRef { module: i, id });
                },
                None => {},
            }
            i = i + 1;
        }
        None
    }

    /// Routes a command: decides which command of which module an
    /// invocation of `command` with the argument `text` runs. The name is
    /// matched without regard to case.
    pub fn route_command(&self, command: &str, text: &str) -> (res: Option<CommandInvocation>)
        ensures
            match self.lookup(lowercase(command@)) {
                Some(found) => res is Some && res->0.module == found.module && res->0.id
                    == found.id && res->0.text@ == text@,
                None => res is None,
            },
    {
        let name = to_lowercase(command);
        match self.find_command(&name) {
            Some(found) => Some(
                CommandInvocation { module: found.module, id: found.id, text: text.to_owned() },
            ),
            None => None,
        }
    }
}

/// The modules among the first `upto` outcomes of making a module, in
/// their order.
pub open spec fn made_modules(outcomes: Seq<Result<ModuleDescriptor, String>>, upto: int) -> Seq<
    ModuleDescriptor,
>
    decreases upto,
{
    if upto <= 0 || upto > outcomes.len() {
        Seq::empty()
    } else {
        match outcomes[upto - 1] {
            Ok(module) => made_modules(outcomes, upto - 1).push(module),
            Err(_) => made_modules(outcomes, upto - 1),
        }
    }
}

/// The reasons among the first `upto` outcomes of making a module why no
/// module was made, in their order.
pub open spec fn failed_modules(outcomes: Seq<Result<ModuleDescriptor, String>>, upto: int) -> Seq<
    String,
>
    decreases upto,
{
    if upto <= 0 || upto > outcomes.len() {
        Seq::empty()
    } else {
        match outcomes[upto - 1] {
            Ok(_) => failed_modules(outcomes, upto - 1),
            Err(reason) => failed_modules(outcomes, upto - 1).push(reason),
        }
    }
}

/// Registers the modules that could be made, in their order, and lists the
/// reasons why the others could not.
pub fn register_all(outcomes: Vec<Result<ModuleDescriptor, String>>) -> (res: (Registry, Vec<String>))
    ensures
        res.0.modules@ == made_modules(outcomes@, outcomes@.len() as int),
        res.1@ == failed_modules(outcomes@, outcomes@.len() as int),
{
    let mut rest = outcomes;
    let mut registry = Registry::new();
    let mut failures: Vec<String> = Vec::new();
    let ghost mut done: int = 0;
    proof {
        assert(rest@.subrange(0, rest@.len() as int) =~= outcomes@);
        assert(registry.modules@ =~= made_modules(outcomes@, 0));
    }
    while rest.len() > 0
        invariant
            0 <= done <= outcomes@.len(),
            rest@ == outcomes@.subrange(done, outcomes@.len() as int),
            registry.modules@ == made_modules(outcomes@, done),
            failures@ == failed_modules(outcomes@, done),
        decreases rest@.len(),
    {
        let outcome = rest.remove(0);
        proof {
            assert(outcome == outcomes@[done]);
            assert(rest@ =~= outcomes@.subrange(done + 1, outcomes@.len() as int));
            done = done + 1;
        }
        match outcome {
            Ok(module) => registry.register(module),
            Err(reason) => failures.push(reason),
        }
    }
    (registry, failures)
}

/// The least position from `from` on of a module that declares the alias
/// `name`, or the number of modules when there is none.
pub open spec fn first_module_from(modules: Seq<ModuleDescriptor>, name: Seq<char>, from: int) -> int
    decreases modules.len() - from,
{
    if from >= modules.len() {
        modules.len() as int
    } else if modules[from].declares_alias(name) {
        from
    } else {
        first_module_from(modules, name, from + 1)
    }
}

/// The least position from `from` on of an entry with the identifier `id`,
/// or the number of entries when there is none.
pub open spec fn first_id_from(entries: Seq<CommandEntry>, id: u32, from: int) -> int
    decreases entries.len() - from,
{
    if from >= entries.len() {
        entries.len() as int
    } else if entries[from].id == id {
        from
    } else {
        first_id_from(entries, id, from + 1)
    }
}

/// `first_module_from` is the least position from `from` on of a module that
/// declares `name`.
pub proof fn lemma_first_module_from(modules: Seq<ModuleDescriptor>, name: Seq<char>, from: int)
    requires
        0 <= from <= modules.len(),
    ensures
        from <= first_module_from(modules, name, from) <= modules.len(),
        forall|i: int|
            from <= i < first_module_from(modules, name, from) ==> !(#[trigger] modules[i]).declares_alias(
                name,
            ),
        first_module_from(modules, name, from) < modules.len() ==> modules[first_module_from(
            modules,
            name,
            from,
        )].declares_alias(name),
    decreases modules.len() - from,
{
    if from < modules.len() && !modules[from].declares_alias(name) {
        lemma_first_module_from(modules, name, from + 1);
    }
}

/// `first_entry_from` is the least position from `from` on of an entry that
/// has the alias `name`.
pub proof fn lemma_first_entry_from(entries: Seq<CommandEntry>, name: Seq<char>, from: int)
    requires
        0 <= from <= entries.len(),
    ensures
        from <= first_entry_from(entries, name, from) <= entries.len(),
        forall|i: int|
            from <= i < first_entry_from(entries, name, from) ==> !(#[trigger] entries[i]).has_alias(name),
        first_entry_from(entries, name, from) < entries.len() ==> entries[first_entry_from(
            entries,
            name,
            from,
        )].has_alias(name),
    decreases entries.len() - from,
{
    if from < entries.len() && !entries[from].has_alias(name) {
        lemma_first_entry_from(entries, name, from + 1);
    }
}

/// When two modules declare the same alias, the one registered first is
/// never passed over: the lookup yields a module at or before it, and the
/// later module is not chosen.
pub proof fn lemma_first_registered_wins(registry: Registry, name: Seq<char>, first: int, second: int)
    requires
        0 <= first < second < registry.modules@.len(),
        registry.modules@[first].declares_alias(name),
        registry.modules@[second].declares_alias(name),
    ensures
        registry.lookup(name) is Some,
        registry.lookup(name)->0.module <= first,
        registry.lookup(name)->0.module != second,
        (forall|i: int| 0 <= i < first ==> !(#[trigger] registry.modules@[i]).declares_alias(name))
            ==> registry.lookup(name)->0.module == first,
{
    lemma_first_module_from(registry.modules@, name, 0);
    assert(registry.modules@.len() == registry.modules.len());
}

/// A lookup succeeds exactly when some module declares the alias, and the
/// command it yields belongs to the chosen module and has the alias.
pub proof fn lemma_lookup(registry: Registry, name: Seq<char>)
    ensures
        registry.lookup(name) is Some <==> exists|i: int|
            0 <= i < registry.modules@.len() && (#[trigger] registry.modules@[i]).declares_alias(name),
        registry.lookup(name) is Some ==> {
            let found = registry.lookup(name)->0;
            let module = registry.modules@[found.module as int];
            &&& 0 <= found.module < registry.modules@.len()
            &&& module.declares_alias(name)
            &&& 0 <= module.first_match(name) < module.commands@.len()
            &&& module.commands@[module.first_match(name)].has_alias(name)
            &&& module.commands@[module.first_match(name)].id == found.id
            &&& module.declares(found.id)
        },
{
    lemma_first_module_from(registry.modules@, name, 0);
    assert(registry.modules@.len() == registry.modules.len());
    let m = registry.first_module(name);
    if 0 <= m < registry.modules@.len() {
        lemma_first_entry_from(registry.modules@[m].commands@, name, 0);
    }
}

/// The least position from `from` on of an entry with the alias `name`, or
/// the number of entries when there is none.
pub open spec fn first_entry_from(entries: Seq<CommandEntry>, name: Seq<char>, from: int) -> int
    decreases entries.len() - from,
{
    if from >= entries.len() {
        entries.len() as int
    } else if entries[from].has_alias(name) {
        from
    } else {
        first_entry_from(entries, name, from + 1)
    }
}

} // verus!
