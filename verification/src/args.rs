//! Command-line arguments: their declaration, the help text, and the
//! parsing of what the command line holds.
//!
//! A declared argument is stored once under each of its names. The first
//! argument that a command line names takes the words behind it as values
//! until one starts with a dash; every later argument takes them until one is
//! a declared name.

use vstd::prelude::*;
use vstd::string::StringExecFns;
use crate::util::numeral::{decimal, push_decimal};
use crate::util::table::Table;
use crate::util::text::{
    byte_width, push_repeated, repeated, same_text, string_of, to_chars, views, width_of,
};

verus! {

/// The number by which a declared argument is known.
pub type ArgumentID = usize;

/// The values that were given to one argument.
#[derive(Debug)]
pub struct ParsedArgument {
    values: Vec<String>,
}

impl View for ParsedArgument {
    type V = Seq<Seq<char>>;

    closed spec fn view(&self) -> Seq<Seq<char>> {
        views(self.values@)
    }
}

impl ParsedArgument {
    /// The values that an argument took.
    pub fn new(values: Vec<String>) -> (p: Self)
        ensures
            p@ == views(values@),
    {
        Self { values }
    }

    /// The values, in the order of the command line.
    pub fn val(&self) -> (r: &Vec<String>)
        ensures
            views(r@) == self@,
    {
        &self.values
    }
}

/// The arguments that were found on a command line, each name with the
/// values that it took.
#[derive(Debug)]
pub struct ParsedArgs {
    hm: Table<ParsedArgument>,
}

impl View for ParsedArgs {
    type V = Map<Seq<char>, Seq<Seq<char>>>;

    closed spec fn view(&self) -> Map<Seq<char>, Seq<Seq<char>>> {
        Map::new(|k: Seq<char>| self.hm@.contains_key(k), |k: Seq<char>| self.hm@[k]@)
    }
}

impl ParsedArgs {
    /// The values of the argument that was named `key`.
    pub fn get(&self, key: &str) -> (r: Option<&ParsedArgument>)
        ensures
            match r {
                Some(p) => self@.contains_key(key@) && p@ == self@[key@],
                None => !self@.contains_key(key@),
            },
    {
        self.hm.get(key)
    }

    /// Whether the command line named `key`.
    pub fn has(&self, key: &str) -> (r: bool)
        ensures
            r == self@.contains_key(key@),
    {
        self.get(key).is_some()
    }
}

/// An argument as a value.
pub struct ArgumentView {
    /// The names that the argument answers to.
    pub matches: Seq<Seq<char>>,
    /// The number of values that it takes.
    pub numbers: usize,
    pub help: Seq<char>,
    pub id: ArgumentID,
}

/// A declared argument: its names, the number of values that it takes, and
/// its help text.
pub struct Argument {
    matches: Vec<String>,
    numbers: usize,
    help: String,
    id: ArgumentID,
}

impl View for Argument {
    type V = ArgumentView;

    closed spec fn view(&self) -> ArgumentView {
        ArgumentView {
            matches: views(self.matches@),
            numbers: self.numbers,
            help: self.help@,
            id: self.id,
        }
    }
}

/// Whether `names` holds `name`.
pub fn has_name(names: &Vec<String>, name: &String) -> (r: bool)
    ensures
        r == views(names@).contains(name@),
{
    let mut i: usize = 0;
    while i < names.len()
        invariant
            i <= names@.len(),
            forall|j: int| 0 <= j < i ==> views(names@)[j] != name@,
        decreases names@.len() - i,
    {
        if names[i] == *name {
            assert(views(names@)[i as int] == name@);
            return true;
        }
        i += 1;
    }
    false
}

/// A copy of a list of strings.
pub fn copy_names(names: &Vec<String>) -> (r: Vec<String>)
    ensures
        views(r@) == views(names@),
{
    let mut r: Vec<String> = Vec::new();
    let mut i: usize = 0;
    while i < names.len()
        invariant
            i <= names@.len(),
            r@.len() == i,
            forall|j: int| 0 <= j < i ==> (#[trigger] r@[j])@ == names@[j]@,
        decreases names@.len() - i,
    {
        r.push(names[i].clone());
        i += 1;
    }
    assert(views(r@) =~= views(names@));
    r
}

impl Argument {
    /// An argument without names, values or help.
    pub fn new() -> (a: Self)
        ensures
            a@ == (ArgumentView { matches: Seq::empty(), numbers: 0, help: Seq::empty(), id: 0 }),
    {
        let a = Self { matches: Vec::new(), numbers: 0, help: String::new(), id: 0 };
        assert(views(a.matches@) =~= Seq::<Seq<char>>::empty());
        a
    }

    /// The argument with one more name, unless it has the name already.
    pub fn alias(self, name: &str) -> (a: Self)
        ensures
            a@ == (ArgumentView {
                matches: if self@.matches.contains(name@) {
                    self@.matches
                } else {
                    self@.matches.push(name@)
                },
                ..self@
            }),
    {
        let mut a = self;
        let name = name.to_owned();
        if !has_name(&a.matches, &name) {
            let ghost before = views(a.matches@);
            a.matches.push(name);
            assert(views(a.matches@) =~= before.push(name@));
        }
        a
    }

    /// The argument taking `nv` values.
    pub fn count(self, nv: usize) -> (a: Self)
        ensures
            a@ == (ArgumentView { numbers: nv, ..self@ }),
    {
        let mut a = self;
        a.numbers = nv;
        a
    }

    /// The argument with this help text.
    pub fn help(self, help_string: &str) -> (a: Self)
        ensures
            a@ == (ArgumentView { help: help_string@, ..self@ }),
    {
        let mut a = self;
        a.help = help_string.to_owned();
        a
    }

    pub(crate) fn set_id(&mut self, id: usize)
        ensures
            final(self)@ == (ArgumentView { id, ..old(self)@ }),
    {
        self.id = id
    }

    /// A copy of the argument.
    pub fn duplicate(&self) -> (a: Self)
        ensures
            a@ == self@,
    {
        Self {
            matches: copy_names(&self.matches),
            numbers: self.numbers,
            help: self.help.clone(),
            id: self.id,
        }
    }
}

/// A name with the argument that is stored under it, as a value.
pub struct StoredView {
    pub name: Seq<char>,
    pub argument: ArgumentView,
}

struct Stored {
    name: String,
    argument: Argument,
}

impl View for Stored {
    type V = StoredView;

    closed spec fn view(&self) -> StoredView {
        StoredView { name: self.name@, argument: self.argument@ }
    }
}

/// The first index at or after `from` that stores something under `name`;
/// the length of `stored` where there is none.
pub open spec fn index_named(stored: Seq<StoredView>, name: Seq<char>, from: int) -> int
    decreases stored.len() - from,
{
    if 0 <= from < stored.len() && stored[from].name != name {
        index_named(stored, name, from + 1)
    } else {
        from
    }
}

/// Whether something is stored under `name`.
pub open spec fn is_stored(stored: Seq<StoredView>, name: Seq<char>) -> bool {
    index_named(stored, name, 0) < stored.len()
}

/// `stored` after `a` was stored under `name`: in the place of what was
/// stored there before, or behind the rest.
pub open spec fn upserted(stored: Seq<StoredView>, name: Seq<char>, a: ArgumentView) -> Seq<
    StoredView,
> {
    let at = index_named(stored, name, 0);
    if 0 <= at < stored.len() {
        stored.update(at, StoredView { name, argument: a })
    } else {
        stored.push(StoredView { name, argument: a })
    }
}

/// `stored` after `a` was stored under its first `upto` names.
pub open spec fn stored_under(stored: Seq<StoredView>, a: ArgumentView, upto: int) -> Seq<
    StoredView,
>
    decreases upto,
{
    if upto <= 0 || upto > a.matches.len() {
        stored
    } else {
        upserted(stored_under(stored, a, upto - 1), a.matches[upto - 1], a)
    }
}

/// The declared arguments of a program, as a value.
pub struct ArgsView {
    /// The names that were declared, each with its argument, in the order of
    /// their first declaration.
    pub stored: Seq<StoredView>,
    /// The names in the order of their declaration, repeated where they were
    /// declared again.
    pub order: Seq<Seq<char>>,
    /// The number that was given out last.
    pub last_id: usize,
    pub author: Seq<char>,
    pub desc: Seq<char>,
    pub name: Seq<char>,
}

/// What holds of every set of declared arguments: an argument answers to the
/// name that it is stored under, and every name in the order is stored.
pub open spec fn consistent(stored: Seq<StoredView>, order: Seq<Seq<char>>) -> bool {
    &&& forall|i: int|
        0 <= i < stored.len() ==> (#[trigger] stored[i]).argument.matches.contains(stored[i].name)
    &&& forall|j: int| 0 <= j < order.len() ==> is_stored(stored, #[trigger] order[j])
}

/// The search for a name ends at the first slot that stores it.
pub proof fn lemma_index_named_bounds(stored: Seq<StoredView>, name: Seq<char>, from: int)
    requires
        0 <= from <= stored.len(),
    ensures
        from <= index_named(stored, name, from) <= stored.len(),
        index_named(stored, name, from) < stored.len() ==> stored[index_named(
            stored,
            name,
            from,
        )].name == name,
        forall|k: int| from <= k < index_named(stored, name, from) ==> stored[k].name != name,
    decreases stored.len() - from,
{
    if from < stored.len() && stored[from].name != name {
        lemma_index_named_bounds(stored, name, from + 1);
    }
}

/// Storing one more argument keeps what is stored stored.
proof fn lemma_upserted_keeps(
    stored: Seq<StoredView>,
    name: Seq<char>,
    a: ArgumentView,
    other: Seq<char>,
)
    ensures
        is_stored(stored, other) ==> is_stored(upserted(stored, name, a), other),
        is_stored(upserted(stored, name, a), name),
{
    let after = upserted(stored, name, a);
    let at = index_named(stored, name, 0);
    lemma_index_named_bounds(stored, name, 0);
    lemma_index_named_bounds(after, name, 0);
    lemma_index_named_bounds(after, other, 0);
    lemma_index_named_bounds(stored, other, 0);
    if at < stored.len() {
        assert(after[at].name == name);
    } else {
        assert(after[stored.len() as int].name == name);
    }
    if is_stored(stored, other) {
        let k = index_named(stored, other, 0);
        assert(after[k].name == other);
    }
}

proof fn lemma_upserted_consistent(
    stored: Seq<StoredView>,
    order: Seq<Seq<char>>,
    name: Seq<char>,
    a: ArgumentView,
)
    requires
        consistent(stored, order),
        a.matches.contains(name),
    ensures
        consistent(upserted(stored, name, a), order.push(name)),
{
    let after = upserted(stored, name, a);
    lemma_index_named_bounds(stored, name, 0);
    assert forall|j: int| 0 <= j < order.push(name).len() implies is_stored(
        after,
        #[trigger] order.push(name)[j],
    ) by {
        lemma_upserted_keeps(stored, name, a, order.push(name)[j]);
        if j < order.len() {
            assert(order.push(name)[j] == order[j]);
        }
    }
}

/// The declared arguments of a program, with what the help text says of
/// the program itself.
pub struct Args {
    stored: Vec<Stored>,
    order: Vec<String>,
    last_id: usize,
    author: String,
    desc: String,
    name: String,
}

impl View for Args {
    type V = ArgsView;

    closed spec fn view(&self) -> ArgsView {
        ArgsView {
            stored: views(self.stored@),
            order: views(self.order@),
            last_id: self.last_id,
            author: self.author@,
            desc: self.desc@,
            name: self.name@,
        }
    }
}

/// The index of what is stored under `name`.
fn position(stored: &Vec<Stored>, name: &String) -> (r: Option<usize>)
    ensures
        match r {
            Some(i) => i == index_named(views(stored@), name@, 0) && i < stored@.len(),
            None => index_named(views(stored@), name@, 0) == stored@.len(),
        },
{
    let mut i: usize = 0;
    while i < stored.len()
        invariant
            i <= stored@.len(),
            index_named(views(stored@), name@, 0) == index_named(views(stored@), name@, i as int),
        decreases stored@.len() - i,
    {
        assert(views(stored@)[i as int] == stored@[i as int]@);
        if stored[i].name == *name {
            return Some(i);
        }
        i += 1;
    }
    None
}

/// Stores a copy of `argument` under `name`.
fn upsert(stored: &mut Vec<Stored>, name: &String, argument: &Argument)
    ensures
        views(final(stored)@) == upserted(views(old(stored)@), name@, argument@),
{
    match position(stored, name) {
        Some(i) => {
            let mut fresh = Stored { name: name.clone(), argument: argument.duplicate() };
            std::mem::swap(&mut stored[i], &mut fresh);
            assert(views(stored@) =~= upserted(views(old(stored)@), name@, argument@));
        },
        None => {
            stored.push(Stored { name: name.clone(), argument: argument.duplicate() });
            assert(views(stored@) =~= upserted(views(old(stored)@), name@, argument@));
        },
    }
}

impl Args {
    #[verifier::type_invariant]
    spec fn well_formed(self) -> bool {
        consistent(views(self.stored@), views(self.order@))
    }

    /// No arguments declared, for the program of the given name.
    pub fn new(exe_name: &str) -> (a: Self)
        ensures
            a@ == (ArgsView {
                stored: Seq::empty(),
                order: Seq::empty(),
                last_id: 0,
                author: Seq::empty(),
                desc: Seq::empty(),
                name: exe_name@,
            }),
    {
        let stored: Vec<Stored> = Vec::new();
        let order: Vec<String> = Vec::new();
        assert(views(stored@) =~= Seq::<StoredView>::empty());
        assert(views(order@) =~= Seq::<Seq<char>>::empty());
        Self {
            stored,
            order,
            last_id: 0,
            author: String::new(),
            desc: String::new(),
            name: exe_name.to_owned(),
        }
    }

    /// The same arguments, with this author.
    pub fn set_author(self, v: &str) -> (a: Self)
        ensures
            a@ == (ArgsView { author: v@, ..self@ }),
    {
        proof {
            use_type_invariant(&self);
        }
        let mut a = self;
        a.author = v.to_owned();
        a
    }

    /// The same arguments, with this description of the program.
    pub fn set_desc(self, v: &str) -> (a: Self)
        ensures
            a@ == (ArgsView { desc: v@, ..self@ }),
    {
        proof {
            use_type_invariant(&self);
        }
        let mut a = self;
        a.desc = v.to_owned();
        a
    }

    /// The same arguments, with this name of the program.
    pub fn set_name(self, v: &str) -> (a: Self)
        ensures
            a@ == (ArgsView { name: v@, ..self@ }),
    {
        proof {
            use_type_invariant(&self);
        }
        let mut a = self;
        a.name = v.to_owned();
        a
    }

    fn generate_id(&mut self) -> (id: usize)
        requires
            old(self)@.last_id < usize::MAX,
        ensures
            id == old(self)@.last_id + 1,
            final(self)@ == (ArgsView { last_id: id, ..old(self)@ }),
    {
        proof {
            use_type_invariant(&*self);
        }
        self.last_id += 1;
        self.last_id
    }

    fn add_to_map(&mut self, argument: Argument) -> (id: ArgumentID)
        requires
            old(self)@.last_id < usize::MAX,
        ensures
            id == old(self)@.last_id + 1,
            final(self)@ == (ArgsView {
                stored: stored_under(
                    old(self)@.stored,
                    ArgumentView { id, ..argument@ },
                    argument@.matches.len() as int,
                ),
                order: old(self)@.order + argument@.matches,
                last_id: id,
                ..old(self)@
            }),
    {
        proof {
            use_type_invariant(&*self);
        }
        let mut argument = argument;
        let argument_id = self.generate_id();
        argument.set_id(argument_id);
        let ghost a = argument@;
        let ghost start = self@;
        let mut stored: Vec<Stored> = Vec::new();
        let mut order: Vec<String> = Vec::new();
        assert(views(stored@) =~= Seq::<StoredView>::empty());
        assert(views(order@) =~= Seq::<Seq<char>>::empty());
        std::mem::swap(&mut self.order, &mut order);
        std::mem::swap(&mut self.stored, &mut stored);
        let mut i: usize = 0;
        assert(views(order@) =~= start.order + a.matches.take(0));
        while i < argument.matches.len()
            invariant
                i <= argument.matches@.len(),
                argument@ == a,
                views(stored@) == stored_under(start.stored, a, i as int),
                views(order@) == start.order + a.matches.take(i as int),
                consistent(views(stored@), views(order@)),
            decreases argument.matches@.len() - i,
        {
            let name = argument.matches[i].clone();
            assert(a.matches[i as int] == name@);
            let ghost before_stored = views(stored@);
            let ghost before_order = views(order@);
            upsert(&mut stored, &name, &argument);
            order.push(name);
            assert(views(order@) =~= before_order.push(name@));
            assert(a.matches.take(i + 1) =~= a.matches.take(i as int).push(name@));
            assert(views(order@) =~= start.order + a.matches.take(i + 1));
            proof {
                lemma_upserted_consistent(before_stored, before_order, name@, a);
            }
            i += 1;
        }
        assert(a.matches.take(a.matches.len() as int) == a.matches);
        std::mem::swap(&mut self.stored, &mut stored);
        std::mem::swap(&mut self.order, &mut order);
        argument_id
    }

    /// Declares an argument with one name, and returns its number.
    pub fn add(&mut self, matches: &str, num_values: usize, help_message: &str) -> (id: ArgumentID)
        requires
            old(self)@.last_id < usize::MAX,
        ensures
            id == old(self)@.last_id + 1,
            final(self)@ == (ArgsView {
                stored: upserted(
                    old(self)@.stored,
                    matches@,
                    ArgumentView {
                        matches: seq![matches@],
                        numbers: num_values,
                        help: help_message@,
                        id,
                    },
                ),
                order: old(self)@.order.push(matches@),
                last_id: id,
                ..old(self)@
            }),
    {
        let argument = Argument::new().alias(matches).count(num_values).help(help_message);
        assert(argument@.matches =~= seq![matches@]);
        let ghost a = ArgumentView { id: (self@.last_id + 1) as usize, ..argument@ };
        assert(stored_under(self@.stored, a, 0) == self@.stored);
        assert(stored_under(self@.stored, a, 1) == upserted(self@.stored, matches@, a));
        assert(self@.order + seq![matches@] =~= self@.order.push(matches@));
        self.add_to_map(argument)
    }

    /// Declares an argument, and returns its number. The argument is stored
    /// under each of its names, with the number as its identity.
    pub fn add_arg(&mut self, argument: Argument) -> (id: ArgumentID)
        requires
            old(self)@.last_id < usize::MAX,
        ensures
            id == old(self)@.last_id + 1,
            final(self)@ == (ArgsView {
                stored: stored_under(
                    old(self)@.stored,
                    ArgumentView { id, ..argument@ },
                    argument@.matches.len() as int,
                ),
                order: old(self)@.order + argument@.matches,
                last_id: id,
                ..old(self)@
            }),
    {
        self.add_to_map(argument)
    }
}

/// The first `upto` names, set apart by a bar.
pub open spec fn joined(names: Seq<Seq<char>>, upto: int) -> Seq<char>
    decreases upto,
{
    if upto <= 0 || upto > names.len() {
        Seq::empty()
    } else if upto == 1 {
        names[0]
    } else {
        joined(names, upto - 1) + " | "@ + names[upto - 1]
    }
}

/// How the help text names an argument: its names, and the number of values
/// where it takes any.
pub open spec fn label(a: ArgumentView) -> Seq<char> {
    let names = joined(a.matches, a.matches.len() as int);
    if a.numbers > 0 {
        names + " ["@ + decimal(a.numbers as nat) + " argument/s]"@
    } else {
        names
    }
}

/// The width of the widest label among the first `upto` stored arguments.
pub open spec fn widest_label(stored: Seq<StoredView>, upto: int) -> usize
    decreases upto,
{
    if upto <= 0 || upto > stored.len() {
        0
    } else {
        let before = widest_label(stored, upto - 1);
        if byte_width(label(stored[upto - 1].argument)) > before {
            byte_width(label(stored[upto - 1].argument))
        } else {
            before
        }
    }
}

/// The first index at or after `from` whose argument answers to `name`; the
/// length of `stored` where there is none.
pub open spec fn owner(stored: Seq<StoredView>, name: Seq<char>, from: int) -> int
    decreases stored.len() - from,
{
    if 0 <= from < stored.len() && !stored[from].argument.matches.contains(name) {
        owner(stored, name, from + 1)
    } else {
        from
    }
}

/// Whether one of `listed` has the identity `id`.
pub open spec fn lists(listed: Seq<ArgumentView>, id: ArgumentID) -> bool {
    exists|k: int| 0 <= k < listed.len() && (#[trigger] listed[k]).id == id
}

/// The arguments that the help text lists: for each of the first `upto`
/// names of the order the first stored argument that answers to it, unless
/// an argument of the same identity is listed already.
pub open spec fn listed(stored: Seq<StoredView>, order: Seq<Seq<char>>, upto: int) -> Seq<
    ArgumentView,
>
    decreases upto,
{
    if upto <= 0 || upto > order.len() {
        Seq::empty()
    } else {
        let before = listed(stored, order, upto - 1);
        let at = owner(stored, order[upto - 1], 0);
        if 0 <= at < stored.len() && !lists(before, stored[at].argument.id) {
            before.push(stored[at].argument)
        } else {
            before
        }
    }
}

/// The name of the help argument in the help text.
pub open spec fn help_label() -> Seq<char> {
    "--help, -h"@
}

/// The width of the column of labels: four more than the widest label.
pub open spec fn label_column(stored: Seq<StoredView>) -> int {
    widest_label(stored, stored.len() as int) + 4
}

/// The line of the help text for one argument.
pub open spec fn help_line(a: ArgumentView, column: int) -> Seq<char> {
    "    "@ + label(a) + repeated(" "@, (column - byte_width(label(a))) as nat) + " "@ + a.help
        + "\n"@
}

/// The lines of the help text for the first `upto` arguments.
pub open spec fn help_lines(arguments: Seq<ArgumentView>, column: int, upto: int) -> Seq<char>
    decreases upto,
{
    if upto <= 0 || upto > arguments.len() {
        Seq::empty()
    } else {
        help_lines(arguments, column, upto - 1) + help_line(arguments[upto - 1], column)
    }
}

/// The head of the help text: the program and what it does, its author, and
/// how it is called.
pub open spec fn help_head(v: ArgsView) -> Seq<char> {
    v.name + " \x1b[90m~\x1b[0m "@ + v.desc + "\n"@ + "\x1b[0mAuthor \x1b[90m~ \x1b[0m"@ + v.author
        + "\n"@ + "\x1b[0mUsage \x1b[90m~\n    \x1b[32m$ \x1b[0m"@ + v.name
        + " -[cmd] [arg/s...]"@ + "\n"@ + "\x1b[0mArguments \x1b[90m~"@ + "\n"@
}

/// The last line of the help text, for the help argument itself.
pub open spec fn help_foot(column: int) -> Seq<char> {
    "    "@ + help_label() + repeated(" "@, (column - byte_width(help_label())) as nat)
        + " Prints this help message."@
}

/// The help text.
pub open spec fn help_text(v: ArgsView) -> Seq<char> {
    let column = label_column(v.stored);
    let arguments = listed(v.stored, v.order, v.order.len() as int);
    help_head(v) + help_lines(arguments, column, arguments.len() as int) + help_foot(column)
}

/// Whether the help text can be laid out: the column of labels is wide
/// enough for the help argument, and its width is a machine word.
pub open spec fn help_fits(v: ArgsView) -> bool {
    byte_width(help_label()) <= label_column(v.stored) <= usize::MAX
}

proof fn lemma_widest_label_bounds(stored: Seq<StoredView>, upto: int, k: int)
    requires
        0 <= k < upto <= stored.len(),
    ensures
        byte_width(label(stored[k].argument)) <= widest_label(stored, upto),
    decreases upto,
{
    if k < upto - 1 {
        lemma_widest_label_bounds(stored, upto - 1, k);
    }
}

proof fn lemma_owner_bounds(stored: Seq<StoredView>, name: Seq<char>, from: int, k: int)
    requires
        0 <= from <= k < stored.len(),
        stored[k].argument.matches.contains(name),
    ensures
        from <= owner(stored, name, from) <= k,
    decreases stored.len() - from,
{
    if from < k && !stored[from].argument.matches.contains(name) {
        lemma_owner_bounds(stored, name, from + 1, k);
    }
}

/// A name under which an argument is stored has an argument that answers to
/// it.
proof fn lemma_stored_names_have_owners(stored: Seq<StoredView>, name: Seq<char>)
    requires
        forall|i: int|
            0 <= i < stored.len() ==> (#[trigger] stored[i]).argument.matches.contains(
                stored[i].name,
            ),
        is_stored(stored, name),
    ensures
        0 <= owner(stored, name, 0) < stored.len(),
{
    lemma_index_named_bounds(stored, name, 0);
    let k = index_named(stored, name, 0);
    assert(stored[k].argument.matches.contains(stored[k].name));
    lemma_owner_bounds(stored, name, 0, k);
}

/// The label of an argument.
pub fn label_of(a: &Argument) -> (r: String)
    ensures
        r@ == label(a@),
{
    let mut r = String::new();
    let mut i: usize = 0;
    while i < a.matches.len()
        invariant
            i <= a.matches@.len(),
            r@ == joined(a@.matches, i as int),
        decreases a.matches@.len() - i,
    {
        assert(a@.matches[i as int] == a.matches@[i as int]@);
        if i > 0 {
            r.append(" | ");
        } else {
            assert(Seq::<char>::empty() + a@.matches[0] == a@.matches[0]);
        }
        r.append(a.matches[i].as_str());
        i += 1;
    }
    if a.numbers > 0 {
        let mut count: Vec<char> = Vec::new();
        push_decimal(&mut count, a.numbers as u128);
        assert(count@ == decimal(a.numbers as nat));
        r.append(" [");
        r.append(string_of(&count).as_str());
        r.append(" argument/s]");
    }
    r
}

impl Args {
    /// Whether the help text can be laid out. Where it cannot, `create_help`
    /// is not to be called.
    pub fn can_create_help(&self) -> (r: bool)
        ensures
            r == help_fits(self@),
    {
        let widest = self.widest();
        widest <= usize::MAX - 4 && width_of("--help, -h") <= widest + 4
    }

    /// The width of the widest label.
    fn widest(&self) -> (w: usize)
        ensures
            w == widest_label(self@.stored, self@.stored.len() as int),
    {
        let mut w: usize = 0;
        let mut i: usize = 0;
        while i < self.stored.len()
            invariant
                i <= self.stored@.len(),
                w == widest_label(self@.stored, i as int),
            decreases self.stored@.len() - i,
        {
            assert(self@.stored[i as int] == self.stored@[i as int]@);
            let text = label_of(&self.stored[i].argument);
            let n = width_of(text.as_str());
            if n > w {
                w = n;
            }
            i += 1;
        }
        w
    }

    /// The index of the first stored argument that answers to `name`.
    fn owner_of(&self, name: &String) -> (r: usize)
        ensures
            r == owner(self@.stored, name@, 0),
            r <= self.stored@.len(),
    {
        let mut i: usize = 0;
        while i < self.stored.len()
            invariant
                i <= self.stored@.len(),
                owner(self@.stored, name@, 0) == owner(self@.stored, name@, i as int),
            decreases self.stored@.len() - i,
        {
            assert(self@.stored[i as int] == self.stored@[i as int]@);
            if has_name(&self.stored[i].argument.matches, name) {
                return i;
            }
            i += 1;
        }
        i
    }

    /// The indices of the stored arguments that the help text lists.
    fn listing(&self) -> (r: Vec<usize>)
        ensures
            r@.len() == listed(self@.stored, self@.order, self@.order.len() as int).len(),
            forall|k: int|
                0 <= k < r@.len() ==> (#[trigger] r@[k]) < self.stored@.len() && self@.stored[r@[k] as int].argument
                    == listed(self@.stored, self@.order, self@.order.len() as int)[k],
    {
        let ghost stored = self@.stored;
        let ghost order = self@.order;
        let mut r: Vec<usize> = Vec::new();
        let mut j: usize = 0;
        while j < self.order.len()
            invariant
                j <= self.order@.len(),
                stored == self@.stored,
                order == self@.order,
                r@.len() == listed(stored, order, j as int).len(),
                forall|k: int|
                    0 <= k < r@.len() ==> (#[trigger] r@[k]) < self.stored@.len()
                        && stored[r@[k] as int].argument == listed(stored, order, j as int)[k],
            decreases self.order@.len() - j,
        {
            assert(order[j as int] == self.order@[j as int]@);
            let ghost before = listed(stored, order, j as int);
            let at = self.owner_of(&self.order[j]);
            proof {
                use_type_invariant(self);
                lemma_stored_names_have_owners(stored, order[j as int]);
            }
            {
                assert(stored[at as int] == self.stored@[at as int]@);
                let id = self.stored[at].argument.id;
                let mut seen = false;
                let mut k: usize = 0;
                while k < r.len()
                    invariant
                        k <= r@.len(),
                        stored == self@.stored,
                        r@.len() == before.len(),
                        id == stored[at as int].argument.id,
                        forall|m: int|
                            0 <= m < r@.len() ==> (#[trigger] r@[m]) < self.stored@.len()
                                && stored[r@[m] as int].argument == before[m],
                        !seen ==> forall|m: int| 0 <= m < k ==> (#[trigger] before[m]).id != id,
                        seen ==> lists(before, id),
                    decreases r@.len() - k,
                {
                    assert(stored[r@[k as int] as int] == self.stored@[r@[k as int] as int]@);
                    if self.stored[r[k]].argument.id == id {
                        assert(before[k as int].id == id);
                        seen = true;
                    }
                    k += 1;
                }
                if !seen {
                    r.push(at);
                }
            }
            j += 1;
        }
        r
    }

    /// The help text: a head, one line for each argument in the order of
    /// declaration, and a line for the help argument.
    pub fn create_help(&self) -> (r: String)
        requires
            help_fits(self@),
        ensures
            r@ == help_text(self@),
    {
        let ghost v = self@;
        let mut result_string = String::new();
        let column = self.widest() + 4;
        result_string.append(self.name.as_str());
        result_string.append(" \x1b[90m~\x1b[0m ");
        result_string.append(self.desc.as_str());
        result_string.append("\n");
        result_string.append("\x1b[0mAuthor \x1b[90m~ \x1b[0m");
        result_string.append(self.author.as_str());
        result_string.append("\n");
        result_string.append("\x1b[0mUsage \x1b[90m~\n    \x1b[32m$ \x1b[0m");
        result_string.append(self.name.as_str());
        result_string.append(" -[cmd] [arg/s...]");
        result_string.append("\n");
        result_string.append("\x1b[0mArguments \x1b[90m~");
        result_string.append("\n");
        assert(result_string@ == help_head(v));
        let listing = self.listing();
        let ghost arguments = listed(v.stored, v.order, v.order.len() as int);
        let mut k: usize = 0;
        assert(result_string@ == help_head(v) + help_lines(arguments, column as int, 0));
        while k < listing.len()
            invariant
                k <= listing@.len() == arguments.len(),
                v == self@,
                column == label_column(v.stored),
                forall|m: int|
                    0 <= m < listing@.len() ==> (#[trigger] listing@[m]) < self.stored@.len()
                        && v.stored[listing@[m] as int].argument == arguments[m],
                result_string@ == help_head(v) + help_lines(arguments, column as int, k as int),
            decreases listing@.len() - k,
        {
            let at = listing[k];
            assert(v.stored[at as int] == self.stored@[at as int]@);
            proof {
                lemma_widest_label_bounds(v.stored, v.stored.len() as int, at as int);
            }
            let argument = &self.stored[at].argument;
            let matches = label_of(argument);
            let ghost before = result_string@;
            result_string.append("    ");
            result_string.append(matches.as_str());
            push_repeated(&mut result_string, " ", column - width_of(matches.as_str()));
            result_string.append(" ");
            result_string.append(argument.help.as_str());
            result_string.append("\n");
            assert(result_string@ == before + help_line(arguments[k as int], column as int));
            assert(before + help_line(arguments[k as int], column as int) == help_head(v) + (
            help_lines(arguments, column as int, k as int) + help_line(
                arguments[k as int],
                column as int,
            )));
            k += 1;
        }
        let ghost before = result_string@;
        result_string.append("    ");
        result_string.append("--help, -h");
        push_repeated(&mut result_string, " ", column - width_of("--help, -h"));
        result_string.append(" Prints this help message.");
        assert(result_string@ == before + help_foot(column as int));
        result_string
    }
}

/// Why a command line was not parsed to its end.
#[derive(Debug, PartialEq, Eq)]
pub enum ArgsError {
    /// The command line asks for the help text, with `--help` or `-h`.
    HelpRequested,
    /// An argument, given by its first name, takes more values than the
    /// command line has for it.
    MissingValues { name: String, required: usize, provided: usize },
}

/// An error as a value.
pub enum ArgsErrorView {
    HelpRequested,
    MissingValues { name: Seq<char>, required: usize, provided: usize },
}

impl View for ArgsError {
    type V = ArgsErrorView;

    open spec fn view(&self) -> ArgsErrorView {
        match self {
            ArgsError::HelpRequested => ArgsErrorView::HelpRequested,
            ArgsError::MissingValues { name, required, provided } => ArgsErrorView::MissingValues {
                name: name@,
                required: *required,
                provided: *provided,
            },
        }
    }
}

/// Whether a word starts with a dash.
pub open spec fn is_dashed(word: Seq<char>) -> bool {
    word.len() > 0 && word[0] == '-'
}

/// Whether a word asks for the help text.
pub open spec fn asks_help(word: Seq<char>) -> bool {
    word == "--help"@ || word == "-h"@
}

/// Whether a word ends the values of an argument: for the first argument of
/// a command line a word that starts with a dash, for a later one a word
/// that is a declared name.
pub open spec fn ends_values(stored: Seq<StoredView>, first: bool, word: Seq<char>) -> bool {
    if first {
        is_dashed(word)
    } else {
        is_stored(stored, word)
    }
}

/// The number of values that an argument takes from the words at `at` on,
/// where it wants `wanted` of them.
pub open spec fn taken(
    stored: Seq<StoredView>,
    words: Seq<Seq<char>>,
    first: bool,
    at: int,
    wanted: nat,
) -> nat
    decreases wanted,
{
    if wanted == 0 || at < 0 || at >= words.len() || ends_values(stored, first, words[at]) {
        0
    } else {
        1 + taken(stored, words, first, at + 1, (wanted - 1) as nat)
    }
}

/// What parsing finds from the word `index` on. Every word is looked at as a
/// name, also one that was taken as a value. `context` is the identity of
/// the argument that was found last, and `0` before the first.
pub open spec fn parse_from(
    stored: Seq<StoredView>,
    words: Seq<Seq<char>>,
    index: int,
    context: usize,
    found: Map<Seq<char>, Seq<Seq<char>>>,
) -> Result<Map<Seq<char>, Seq<Seq<char>>>, ArgsErrorView>
    decreases words.len() - index,
{
    if index < 0 || index >= words.len() {
        Ok(found)
    } else if asks_help(words[index]) {
        Err(ArgsErrorView::HelpRequested)
    } else {
        let at = index_named(stored, words[index], 0);
        if 0 <= at < stored.len() {
            let a = stored[at].argument;
            let n = taken(stored, words, context == 0, index + 1, a.numbers as nat);
            if n < a.numbers {
                Err(
                    ArgsErrorView::MissingValues {
                        name: a.matches[0],
                        required: a.numbers,
                        provided: n as usize,
                    },
                )
            } else {
                parse_from(
                    stored,
                    words,
                    index + 1,
                    a.id,
                    found.insert(words[index], words.subrange(index + 1, index + 1 + n)),
                )
            }
        } else {
            parse_from(stored, words, index + 1, context, found)
        }
    }
}

/// What parsing makes of a command line.
pub open spec fn parsed(v: ArgsView, words: Seq<Seq<char>>) -> Result<
    Map<Seq<char>, Seq<Seq<char>>>,
    ArgsErrorView,
> {
    parse_from(v.stored, words, 0, 0, Map::empty())
}

/// Whether a word starts with a dash.
fn starts_with_dash(word: &str) -> (r: bool)
    ensures
        r == is_dashed(word@),
{
    let chars = to_chars(word);
    chars.len() > 0 && chars[0] == '-'
}

/// Whether a word asks for the help text.
fn is_help(word: &str) -> (r: bool)
    ensures
        r == asks_help(word@),
{
    let chars = to_chars(word);
    same_text(&chars, &to_chars("--help")) || same_text(&chars, &to_chars("-h"))
}

impl Args {
    /// Takes the values of an argument from the words behind `index`.
    fn take_values(&self, from: &Vec<&str>, index: usize, first: bool, wanted: usize) -> (values:
        Vec<String>)
        requires
            index < from@.len(),
        ensures
            values@.len() == taken(self@.stored, views(from@), first, index + 1, wanted as nat),
            values@.len() <= wanted,
            index + 1 + values@.len() <= from@.len(),
            views(values@) == views(from@).subrange(index + 1, index + 1 + values@.len()),
    {
        let ghost words = views(from@);
        let ghost stored = self@.stored;
        let ghost goal = taken(stored, words, first, index + 1, wanted as nat);
        let n = from.len();
        let mut values: Vec<String> = Vec::new();
        let mut i: usize = index + 1;
        let mut count: usize = 0;
        assert(views(values@) =~= words.subrange(index + 1, index + 1));
        loop
            invariant
                i == index + 1 + count,
                i <= n == from@.len(),
                count <= wanted,
                count == values@.len(),
                words == views(from@),
                stored == self@.stored,
                views(values@) == words.subrange(index + 1, i as int),
                goal == count + taken(stored, words, first, i as int, (wanted - count) as nat),
            ensures
                goal == count,
            decreases wanted - count,
        {
            if count >= wanted || i >= n {
                break ;
            }
            assert(words[i as int] == from@[i as int]@);
            let stop = if first {
                starts_with_dash(from[i])
            } else {
                position(&self.stored, &from[i].to_owned()).is_some()
            };
            if stop {
                break ;
            }
            let ghost before = views(values@);
            values.push(from[i].to_owned());
            assert(views(values@) =~= before.push(words[i as int]));
            assert(words.subrange(index + 1, i + 1) =~= words.subrange(index + 1, i as int).push(
                words[i as int],
            ));
            count += 1;
            i += 1;
        }
        values
    }

    /// Parses a command line. Each word that is a declared name takes the
    /// words behind it as its values, as many as it was declared with; a
    /// name with too few values, or a word that asks for help, ends the
    /// parsing.
    pub fn parse(&self, from: Vec<&str>) -> (r: Result<ParsedArgs, ArgsError>)
        ensures
            match r {
                Ok(found) => parsed(self@, views(from@)) == Ok::<
                    Map<Seq<char>, Seq<Seq<char>>>,
                    ArgsErrorView,
                >(found@),
                Err(e) => parsed(self@, views(from@)) == Err::<
                    Map<Seq<char>, Seq<Seq<char>>>,
                    ArgsErrorView,
                >(e@),
            },
    {
        let ghost words = views(from@);
        let ghost stored = self@.stored;
        let mut found = ParsedArgs { hm: Table::new() };
        assert(found@ =~= Map::<Seq<char>, Seq<Seq<char>>>::empty());
        let mut ctx: usize = 0;
        let mut index: usize = 0;
        while index < from.len()
            invariant
                index <= from@.len(),
                words == views(from@),
                stored == self@.stored,
                parsed(self@, words) == parse_from(stored, words, index as int, ctx, found@),
            decreases from@.len() - index,
        {
            let arg = from[index];
            assert(words[index as int] == arg@);
            if is_help(arg) {
                return Err(ArgsError::HelpRequested);
            }
            match position(&self.stored, &arg.to_owned()) {
                Some(at) => {
                    assert(stored[at as int] == self.stored@[at as int]@);
                    proof {
                        use_type_invariant(self);
                        assert(stored[at as int].argument.matches.contains(stored[at as int].name));
                    }
                    let argument = &self.stored[at].argument;
                    let values = self.take_values(&from, index, ctx == 0, argument.numbers);
                    ctx = argument.id;
                    if values.len() < argument.numbers {
                        assert(argument@.matches[0] == argument.matches@[0]@);
                        return Err(
                            ArgsError::MissingValues {
                                name: argument.matches[0].clone(),
                                required: argument.numbers,
                                provided: values.len(),
                            },
                        );
                    }
                    let ghost before = found@;
                    found.hm.insert(arg, ParsedArgument::new(values));
                    assert(found@ =~= before.insert(arg@, views(values@)));
                },
                None => {},
            }
            index += 1;
        }
        Ok(found)
    }
}

} // verus!
