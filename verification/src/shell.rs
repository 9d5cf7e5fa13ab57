use vstd::prelude::*;
use crate::text::{
    join_spaced, piece, push_char, spaced, split_on, split_str, to_num_signed, to_num_signed_spec,
    words_from,
};

verus! {

/// A (env) variable
pub struct Variable {
    pub name: String,
    pub value: String,
}

/// One level of `if`: whether commands at this level run.
pub struct Mode {
    value: bool,
}

/// What a built-in command does; the terminal program carries it out.
pub enum Builtin {
    Echo,
    Open,
    Run,
    Send,
    Sleep,
    Url,
    UrlHex,
    Wget,
    /// Prints `"Commands:"` followed by this list.
    Help { list: String },
}

/// A command
pub struct Command {
    pub name: String,
    pub main: Builtin,
}

/// What a command line asks of the terminal program.
pub enum Reply {
    /// Nothing to do.
    Nothing,
    /// Print this text as a line.
    Print(String),
    /// Run the command at this index of the command table with these arguments.
    Run(usize, Vec<String>),
}

/// The mathematical value of a [`Reply`].
pub enum Outcome {
    Nothing,
    Print(Seq<char>),
    Run(int, Seq<Seq<char>>),
}

impl View for Reply {
    type V = Outcome;

    open spec fn view(&self) -> Outcome {
        match self {
            Reply::Nothing => Outcome::Nothing,
            Reply::Print(s) => Outcome::Print(s@),
            Reply::Run(k, args) => Outcome::Run(*k as int, args.deep_view()),
        }
    }
}

/// A variable as a name and a value.
pub type Binding = (Seq<char>, Seq<char>);

/// `i` is the first position of a variable called `name`.
pub open spec fn is_first_named(vars: Seq<Binding>, name: Seq<char>, i: int) -> bool {
    &&& 0 <= i < vars.len()
    &&& vars[i].0 == name
    &&& forall|j: int| 0 <= j < i ==> vars[j].0 != name
}

/// The position of the first variable called `name`, if any.
pub open spec fn lookup(vars: Seq<Binding>, name: Seq<char>) -> Option<int> {
    if exists|i: int| is_first_named(vars, name, i) {
        Some(choose|i: int| is_first_named(vars, name, i))
    } else {
        None
    }
}

/// No two variables share a name.
pub open spec fn names_unique(vars: Seq<Binding>) -> bool {
    forall|i: int, j: int| 0 <= i < j < vars.len() ==> vars[i].0 != vars[j].0
}

/// One word of a command line as arguments: nothing for an empty word; for
/// `$name`, the value of the first variable called `name` (nothing if there is
/// none); otherwise the word itself.
pub open spec fn expand_word(w: Seq<char>, vars: Seq<Binding>) -> Seq<Seq<char>> {
    if w.len() == 0 {
        Seq::empty()
    } else if w[0] == '$' {
        match lookup(vars, w.drop_first()) {
            Some(i) => seq![vars[i].1],
            None => Seq::empty(),
        }
    } else {
        seq![w]
    }
}

pub open spec fn expand_words(ws: Seq<Seq<char>>, vars: Seq<Binding>) -> Seq<Seq<char>>
    decreases ws.len(),
{
    if ws.len() == 0 {
        Seq::empty()
    } else {
        expand_words(ws.drop_last(), vars) + expand_word(ws.last(), vars)
    }
}

/// The arguments of a command line: its space-separated words, expanded.
pub open spec fn arguments(line: Seq<char>, vars: Seq<Binding>) -> Seq<Seq<char>> {
    expand_words(split_on(line, ' '), vars)
}

/// The text that `$` prints: each variable as a new line `name=value`.
pub open spec fn listing(vars: Seq<Binding>) -> Seq<char>
    decreases vars.len(),
{
    if vars.len() == 0 {
        Seq::empty()
    } else {
        listing(vars.drop_last()) + seq!['\n'] + vars.last().0 + seq!['='] + vars.last().1
    }
}

/// Whether `if` with these arguments opens a level that runs: `if a OP b`
/// compares the words for `==` and `!=`, and their signed decimal values for
/// `>`, `>=`, `<`, `<=`; anything else, or missing arguments, gives false.
pub open spec fn condition_holds(args: Seq<Seq<char>>) -> bool {
    if args.len() < 4 {
        false
    } else {
        let l = args[1];
        let op = args[2];
        let r = args[3];
        if op == "=="@ {
            l == r
        } else if op == "!="@ {
            l != r
        } else if op == ">"@ {
            to_num_signed_spec(l) > to_num_signed_spec(r)
        } else if op == ">="@ {
            to_num_signed_spec(l) >= to_num_signed_spec(r)
        } else if op == "<"@ {
            to_num_signed_spec(l) < to_num_signed_spec(r)
        } else if op == "<="@ {
            to_num_signed_spec(l) <= to_num_signed_spec(r)
        } else {
            false
        }
    }
}

/// `if` was given an operator it does not know.
pub open spec fn unknown_comparison(args: Seq<Seq<char>>) -> bool {
    &&& args.len() >= 4
    &&& args[2] != "=="@
    &&& args[2] != "!="@
    &&& args[2] != ">"@
    &&& args[2] != ">="@
    &&& args[2] != "<"@
    &&& args[2] != "<="@
}

/// `i` is the first position of `c` in `s`.
pub open spec fn is_first_at(s: Seq<char>, c: char, i: int) -> bool {
    &&& 0 <= i < s.len()
    &&& s[i] == c
    &&& forall|j: int| 0 <= j < i ==> s[j] != c
}

/// The first position of `c` in `s`, if any.
pub open spec fn first_index_of(s: Seq<char>, c: char) -> Option<int> {
    if exists|i: int| is_first_at(s, c, i) {
        Some(choose|i: int| is_first_at(s, c, i))
    } else {
        None
    }
}

/// The variables after the assignment `name=text rest...`, where `eq` is the
/// position of the first `=` in the first argument: the value is the text after
/// `=` followed by each further argument after a space. An empty name changes
/// nothing; an empty value removes the first variable of that name; otherwise
/// the first variable of that name takes the value, or a new one is added last.
pub open spec fn assign(vars: Seq<Binding>, args: Seq<Seq<char>>, eq: int) -> Seq<Binding> {
    let cmd = args[0];
    let name = cmd.take(eq);
    let value = cmd.skip(eq + 1) + spaced(args.skip(1));
    if name.len() == 0 {
        vars
    } else if value.len() == 0 {
        match lookup(vars, name) {
            Some(k) => vars.remove(k),
            None => vars,
        }
    } else {
        match lookup(vars, name) {
            Some(k) => vars.update(k, (name, value)),
            None => vars.push((name, value)),
        }
    }
}

/// The position of the first command called `name`, if any.
pub open spec fn find_command(names: Seq<Seq<char>>, name: Seq<char>) -> Option<int> {
    if exists|i: int| 0 <= i < names.len() && names[i] == name && forall|j: int| 0 <= j < i ==> names[j] != name {
        Some(choose|i: int| 0 <= i < names.len() && names[i] == name && forall|j: int| 0 <= j < i ==> names[j] != name)
    } else {
        None
    }
}

/// Every open `if` level runs.
pub open spec fn all_run(modes: Seq<bool>) -> bool {
    forall|j: int| 0 <= j < modes.len() ==> modes[j]
}

/// The terminal's interpretation of one command line: the variables and `if`
/// levels after it, and what it asks for.
pub open spec fn interpret(
    vars: Seq<Binding>,
    modes: Seq<bool>,
    names: Seq<Seq<char>>,
    line: Seq<char>,
) -> (Seq<Binding>, Seq<bool>, Outcome) {
    if line.len() > 0 && line[0] == '#' {
        (vars, modes, Outcome::Nothing)
    } else if line == seq!['$'] {
        (vars, modes, Outcome::Print(listing(vars)))
    } else {
        let args = arguments(line, vars);
        if args.len() == 0 {
            (vars, modes, Outcome::Nothing)
        } else {
            let cmd = args[0];
            if cmd == "if"@ {
                (
                    vars,
                    seq![condition_holds(args)] + modes,
                    if unknown_comparison(args) {
                        Outcome::Print("Unknown comparison: "@ + args[2])
                    } else {
                        Outcome::Nothing
                    },
                )
            } else if cmd == "else"@ {
                if modes.len() > 0 {
                    (vars, modes.update(0, !modes[0]), Outcome::Nothing)
                } else {
                    (vars, modes, Outcome::Print("Syntax error: else found with no previous if"@))
                }
            } else if cmd == "fi"@ {
                if modes.len() > 0 {
                    (vars, modes.drop_first(), Outcome::Nothing)
                } else {
                    (vars, modes, Outcome::Print("Syntax error: fi found with no previous if"@))
                }
            } else if !all_run(modes) {
                (vars, modes, Outcome::Nothing)
            } else {
                match first_index_of(cmd, '=') {
                    Some(eq) => (assign(vars, args, eq), modes, Outcome::Nothing),
                    None => match find_command(names, cmd) {
                        Some(k) => (vars, modes, Outcome::Run(k, args)),
                        None => (
                            vars,
                            modes,
                            Outcome::Print("Unknown command: '"@ + cmd + "'"@),
                        ),
                    },
                }
            }
        }
    }
}

proof fn lemma_first_named_unique(vars: Seq<Binding>, name: Seq<char>, i: int)
    requires
        is_first_named(vars, name, i),
    ensures
        lookup(vars, name) == Some(i),
{
    let k = choose|k: int| is_first_named(vars, name, k);
    assert(is_first_named(vars, name, k));
    if k < i {
        assert(vars[k].0 != name);
    } else if i < k {
        assert(vars[i].0 != name);
    }
}

proof fn lemma_first_at_unique(s: Seq<char>, c: char, i: int)
    requires
        is_first_at(s, c, i),
    ensures
        first_index_of(s, c) == Some(i),
{
    let k = choose|k: int| is_first_at(s, c, k);
    assert(is_first_at(s, c, k));
    if k < i {
        assert(s[k] != c);
    } else if i < k {
        assert(s[i] != c);
    }
}

/// The variables as name/value pairs.
pub open spec fn bindings(vars: Seq<Variable>) -> Seq<Binding> {
    vars.map_values(|v: Variable| (v.name@, v.value@))
}

/// Position of the first variable called `name`.
fn find_var(vars: &Vec<Variable>, name: &str) -> (r: Option<usize>)
    ensures
        match r {
            Some(k) => lookup(bindings(vars@), name@) == Some(k as int),
            None => lookup(bindings(vars@), name@) is None && forall|i: int|
                0 <= i < vars@.len() ==> #[trigger] bindings(vars@)[i].0 != name@,
        },
{
    let ghost b = bindings(vars@);
    let target = String::from_str(name);
    let mut i: usize = 0;
    while i < vars.len()
        invariant
            b == bindings(vars@),
            target@ == name@,
            i <= vars.len(),
            forall|j: int| 0 <= j < i ==> #[trigger] b[j].0 != name@,
        decreases vars.len() - i,
    {
        if vars[i].name == target {
            proof {
                lemma_first_named_unique(b, name@, i as int);
            }
            return Some(i);
        }
        i = i + 1;
    }
    proof {
        if exists|k: int| is_first_named(b, name@, k) {
            let k = choose|k: int| is_first_named(b, name@, k);
            assert(b[k].0 != name@);
        }
    }
    None
}

/// First position of `c` in `s`.
fn find_char(s: &str, c: char) -> (r: Option<usize>)
    ensures
        match r {
            Some(i) => first_index_of(s@, c) == Some(i as int) && is_first_at(s@, c, i as int),
            None => first_index_of(s@, c) is None,
        },
{
    let n = s.unicode_len();
    let mut i: usize = 0;
    while i < n
        invariant
            n == s@.len(),
            i <= n,
            forall|j: int| 0 <= j < i ==> s@[j] != c,
        decreases n - i,
    {
        if s.get_char(i) == c {
            proof {
                lemma_first_at_unique(s@, c, i as int);
            }
            return Some(i);
        }
        i = i + 1;
    }
    proof {
        if exists|k: int| is_first_at(s@, c, k) {
            let k = choose|k: int| is_first_at(s@, c, k);
            assert(s@[k] != c);
        }
    }
    None
}

/// Whether `s` spells the word `w`.
fn is_word(s: &String, w: &str) -> (r: bool)
    ensures
        r == (s@ == w@),
{
    *s == String::from_str(w)
}

/// Expands the words of a command line into arguments.
fn expand(vars: &Vec<Variable>, words: &Vec<String>) -> (r: Vec<String>)
    ensures
        r.deep_view() == expand_words(words.deep_view(), bindings(vars@)),
{
    let ghost b = bindings(vars@);
    let ghost ws = words.deep_view();
    let mut args: Vec<String> = Vec::new();
    let mut i: usize = 0;
    assert(ws.take(0) =~= Seq::<Seq<char>>::empty());
    assert(args.deep_view() =~= Seq::<Seq<char>>::empty());
    while i < words.len()
        invariant
            b == bindings(vars@),
            ws == words.deep_view(),
            i <= words.len(),
            args.deep_view() == expand_words(ws.take(i as int), b),
        decreases words.len() - i,
    {
        let w = words[i].as_str();
        assert(ws[i as int] == w@);
        assert(ws.take(i + 1).drop_last() =~= ws.take(i as int));
        assert(ws.take(i + 1).last() == w@);
        let ghost before = args.deep_view();
        let n = w.unicode_len();
        if n == 0 {
            assert(expand_word(w@, b) =~= Seq::<Seq<char>>::empty());
            assert(before + expand_word(w@, b) =~= before);
        } else if w.get_char(0) == '$' {
            let name = w.substring_char(1, n);
            assert(name@ =~= w@.drop_first());
            match find_var(vars, name) {
                Some(k) => {
                    args.push(vars[k].value.clone());
                    assert(b[k as int].1 == vars@[k as int].value@);
                    assert(args.deep_view() =~= before + expand_word(w@, b));
                },
                None => {
                    assert(before + expand_word(w@, b) =~= before);
                },
            }
        } else {
            args.push(String::from_str(w));
            assert(args.deep_view() =~= before + expand_word(w@, b));
        }
        i = i + 1;
    }
    assert(ws.take(words.len() as int) =~= ws);
    args
}

/// Builds the text that `$` prints.
fn listing_exec(vars: &Vec<Variable>) -> (r: String)
    ensures
        r@ == listing(bindings(vars@)),
{
    let ghost b = bindings(vars@);
    let mut out = String::new();
    let mut i: usize = 0;
    assert(b.take(0) =~= Seq::<Binding>::empty());
    while i < vars.len()
        invariant
            b == bindings(vars@),
            i <= vars.len(),
            out@ == listing(b.take(i as int)),
        decreases vars.len() - i,
    {
        push_char(&mut out, '\n');
        out.append(vars[i].name.as_str());
        push_char(&mut out, '=');
        out.append(vars[i].value.as_str());
        assert(b.take(i + 1).drop_last() =~= b.take(i as int));
        i = i + 1;
    }
    assert(b.take(vars.len() as int) =~= b);
    out
}

/// Evaluates the condition of `if`: whether it holds, and whether the
/// operator was unknown.
fn condition(args: &Vec<String>) -> (r: (bool, bool))
    ensures
        r.0 == condition_holds(args.deep_view()),
        r.1 == unknown_comparison(args.deep_view()),
{
    let ghost a = args.deep_view();
    if args.len() < 4 {
        return (false, false);
    }
    let l = &args[1];
    let op = &args[2];
    let r = &args[3];
    assert(a[1] == l@ && a[2] == op@ && a[3] == r@);
    if is_word(op, "==") {
        (*l == *r, false)
    } else if is_word(op, "!=") {
        (!(*l == *r), false)
    } else if is_word(op, ">") {
        (to_num_signed(l.as_str()) > to_num_signed(r.as_str()), false)
    } else if is_word(op, ">=") {
        (to_num_signed(l.as_str()) >= to_num_signed(r.as_str()), false)
    } else if is_word(op, "<") {
        (to_num_signed(l.as_str()) < to_num_signed(r.as_str()), false)
    } else if is_word(op, "<=") {
        (to_num_signed(l.as_str()) <= to_num_signed(r.as_str()), false)
    } else {
        (false, true)
    }
}

/// The names of the built-in commands, in table order, before `help`.
pub open spec fn builtin_names() -> Seq<Seq<char>> {
    seq!["echo"@, "open"@, "run"@, "send"@, "sleep"@, "url"@, "url_hex"@, "wget"@]
}

/// The built-in commands in table order, `help` last.
pub open spec fn builtin_of(i: int) -> Builtin {
    if i == 0 {
        Builtin::Echo
    } else if i == 1 {
        Builtin::Open
    } else if i == 2 {
        Builtin::Run
    } else if i == 3 {
        Builtin::Send
    } else if i == 4 {
        Builtin::Sleep
    } else if i == 5 {
        Builtin::Url
    } else if i == 6 {
        Builtin::UrlHex
    } else {
        Builtin::Wget
    }
}

/// The names of a command table.
pub open spec fn names_of(commands: Seq<Command>) -> Seq<Seq<char>> {
    commands.map_values(|c: Command| c.name@)
}

/// The list that `help` prints after `Commands:`: every command before `help`,
/// each after a space, then ` exit`.
pub open spec fn command_list_of(names: Seq<Seq<char>>) -> Seq<char> {
    spaced(names) + " exit"@
}

/// Folds the names of the commands into the list that `help` prints.
fn command_list(commands: &Vec<Command>) -> (r: String)
    ensures
        r@ == command_list_of(names_of(commands@)),
{
    let ghost ns = names_of(commands@);
    let mut out = String::new();
    let mut i: usize = 0;
    assert(ns.take(0) =~= Seq::<Seq<char>>::empty());
    while i < commands.len()
        invariant
            ns == names_of(commands@),
            i <= commands.len(),
            out@ == spaced(ns.take(i as int)),
        decreases commands.len() - i,
    {
        push_char(&mut out, ' ');
        out.append(commands[i].name.as_str());
        assert(ns.take(i + 1).drop_last() =~= ns.take(i as int));
        i = i + 1;
    }
    assert(ns.take(commands.len() as int) =~= ns);
    out.append(" exit");
    out
}

impl Command {
    /// Return the vector of the commands
    pub fn vec() -> (r: Vec<Command>)
        ensures
            r.len() == 9,
            forall|i: int| 0 <= i < 8 ==> #[trigger] r@[i].name@ == builtin_names()[i] && r@[i].main
                == builtin_of(i),
            r@[8].name@ == "help"@,
            r@[8].main matches Builtin::Help { list } && list@ == command_list_of(builtin_names()),
    {
        let mut commands: Vec<Command> = Vec::new();
        commands.push(Command { name: String::from_str("echo"), main: Builtin::Echo });
        commands.push(Command { name: String::from_str("open"), main: Builtin::Open });
        commands.push(Command { name: String::from_str("run"), main: Builtin::Run });
        commands.push(Command { name: String::from_str("send"), main: Builtin::Send });
        commands.push(Command { name: String::from_str("sleep"), main: Builtin::Sleep });
        commands.push(Command { name: String::from_str("url"), main: Builtin::Url });
        commands.push(Command { name: String::from_str("url_hex"), main: Builtin::UrlHex });
        commands.push(Command { name: String::from_str("wget"), main: Builtin::Wget });
        assert(names_of(commands@) =~= builtin_names());
        let list = command_list(&commands);
        commands.push(Command { name: String::from_str("help"), main: Builtin::Help { list } });
        commands
    }
}

/// An application
pub struct Application {
    commands: Vec<Command>,
    variables: Vec<Variable>,
    modes: Vec<Mode>,
}

impl Application {
    /// The variables, in order of creation.
    pub closed spec fn vars(&self) -> Seq<Binding> {
        bindings(self.variables@)
    }

    /// The open `if` levels, innermost first: whether each one runs.
    pub closed spec fn levels(&self) -> Seq<bool> {
        self.modes@.map_values(|m: Mode| m.value)
    }

    /// The names of the command table.
    pub closed spec fn names(&self) -> Seq<Seq<char>> {
        names_of(self.commands@)
    }

    /// The command table.
    pub closed spec fn table(&self) -> Seq<Command> {
        self.commands@
    }

    /// No two variables share a name.
    #[verifier::type_invariant]
    spec fn wf(&self) -> bool {
        names_unique(self.vars())
    }

    /// Create a new empty application
    pub fn new() -> (r: Self)
        ensures
            r.vars() == Seq::<Binding>::empty(),
            r.levels() == Seq::<bool>::empty(),
            r.names() == builtin_names().push("help"@),
            r.table().len() == 9,
            forall|i: int| 0 <= i < 8 ==> #[trigger] r.table()[i].main == builtin_of(i),
            r.table()[8].main matches Builtin::Help { list } && list@ == command_list_of(
                builtin_names(),
            ),
    {
        let r = Application { commands: Command::vec(), variables: Vec::new(), modes: Vec::new() };
        assert(r.vars() =~= Seq::<Binding>::empty());
        assert(r.levels() =~= Seq::<bool>::empty());
        assert(r.names() =~= builtin_names().push("help"@));
        assert forall|i: int| 0 <= i < 8 implies #[trigger] r.table()[i].main == builtin_of(i) by {
            assert(r.table()[i].name@ == builtin_names()[i]);
        }
        r
    }

    /// The command table, for carrying out a [`Reply::Run`].
    pub fn commands(&self) -> (r: &Vec<Command>)
        ensures
            r@ == self.table(),
            names_of(r@) == self.names(),
    {
        &self.commands
    }

    /// Position of the first command called `name`.
    fn command_index(&self, name: &String) -> (r: Option<usize>)
        ensures
            match r {
                Some(k) => find_command(self.names(), name@) == Some(k as int),
                None => find_command(self.names(), name@) is None,
            },
    {
        let ghost ns = self.names();
        let mut i: usize = 0;
        while i < self.commands.len()
            invariant
                ns == self.names(),
                i <= self.commands.len(),
                forall|j: int| 0 <= j < i ==> #[trigger] ns[j] != name@,
            decreases self.commands.len() - i,
        {
            if self.commands[i].name == *name {
                proof {
                    assert(ns[i as int] == name@);
                    assert(0 <= i < ns.len() && ns[i as int] == name@ && forall|j: int| 0 <= j < i ==> ns[j] != name@);
                    let k = choose|k: int|
                        0 <= k < ns.len() && ns[k] == name@ && forall|j: int| 0 <= j < k ==> ns[j] != name@;
                    assert(0 <= k < ns.len() && ns[k] == name@ && forall|j: int| 0 <= j < k ==> ns[j] != name@);
                    if k < i {
                        assert(ns[k] != name@);
                    } else if (i as int) < k {
                        assert(ns[i as int] != name@);
                    }
                }
                return Some(i);
            }
            i = i + 1;
        }
        None
    }

    /// Whether every open `if` level runs.
    fn all_levels_run(&self) -> (r: bool)
        ensures
            r == all_run(self.levels()),
    {
        let mut i: usize = 0;
        while i < self.modes.len()
            invariant
                i <= self.modes.len(),
                forall|j: int| 0 <= j < i ==> #[trigger] self.levels()[j],
            decreases self.modes.len() - i,
        {
            if !self.modes[i].value {
                assert(!self.levels()[i as int]);
                return false;
            }
            i = i + 1;
        }
        true
    }

    /// Carries out `name=value ...`, where `eq` is the first `=` of the first argument.
    fn assign_exec(&mut self, args: &Vec<String>, eq: usize)
        requires
            args.len() > 0,
            is_first_at(args@[0]@, '=', eq as int),
        ensures
            final(self).vars() == assign(old(self).vars(), args.deep_view(), eq as int),
            final(self).levels() == old(self).levels(),
            final(self).commands == old(self).commands,
    {
        proof {
            use_type_invariant(&*self);
        }
        let ghost a = args.deep_view();
        let ghost old_vars = self.vars();
        let cmd = args[0].as_str();
        assert(a[0] == cmd@);
        let len = cmd.unicode_len();
        let name = piece(cmd, 0, eq);
        let mut value = piece(cmd, eq + 1, len);
        let rest = join_spaced(args, 1);
        value.append(rest.as_str());
        proof {
            assert(name@ =~= a[0].take(eq as int));
            assert(a.skip(1) =~= words_from(a, 1));
            assert(value@ =~= a[0].skip(eq + 1) + spaced(a.skip(1)));
        }
        if name.as_str().unicode_len() == 0 {
            return;
        }
        let found = find_var(&self.variables, name.as_str());
        let mut vars: Vec<Variable> = Vec::new();
        std::mem::swap(&mut vars, &mut self.variables);
        assert(bindings(vars@) == old_vars);
        if value.as_str().unicode_len() == 0 {
            if let Some(k) = found {
                vars.remove(k);
                assert(bindings(vars@) =~= old_vars.remove(k as int));
            }
        } else {
            match found {
                Some(k) => {
                    vars.set(k, Variable { name, value });
                    assert(bindings(vars@) =~= old_vars.update(k as int, (name@, value@)));
                    assert(old_vars[k as int].0 == name@);
                },
                None => {
                    vars.push(Variable { name, value });
                    assert(bindings(vars@) =~= old_vars.push((name@, value@)));
                },
            }
        }
        self.variables = vars;
    }

    /// Interprets one command line: comments (`#...`) are ignored, `$` lists
    /// the variables, `if`/`else`/`fi` open, flip and close levels, and while
    /// every level runs, `name=value` sets a variable and any other first word
    /// names a command to run.
    pub fn on_command(&mut self, command_string: &str) -> (reply: Reply)
        ensures
            names_unique(old(self).vars()),
            names_unique(final(self).vars()),
            final(self).names() == old(self).names(),
            final(self).table() == old(self).table(),
            ({
                let (v, m, o) = interpret(
                    old(self).vars(),
                    old(self).levels(),
                    old(self).names(),
                    command_string@,
                );
                &&& final(self).vars() == v
                &&& final(self).levels() == m
                &&& reply@ == o
            }),
    {
        proof {
            use_type_invariant(&*self);
        }
        let ghost vars0 = self.vars();
        let ghost modes0 = self.levels();
        let n = command_string.unicode_len();
        if n > 0 && command_string.get_char(0) == '#' {
            return Reply::Nothing;
        }
        if n == 1 && command_string.get_char(0) == '$' {
            assert(command_string@ =~= seq!['$']);
            return Reply::Print(listing_exec(&self.variables));
        }
        assert(command_string@ != seq!['$']) by {
            if n == 1 {
                assert(command_string@[0] != seq!['$'][0]);
            }
        }
        let words = split_str(command_string, ' ');
        let args = expand(&self.variables, &words);
        let ghost a = args.deep_view();
        assert(a == arguments(command_string@, vars0));
        if args.len() == 0 {
            return Reply::Nothing;
        }
        let cmd = args[0].clone();
        assert(a[0] == cmd@);
        if is_word(&cmd, "if") {
            let (value, unknown) = condition(&args);
            let mut modes: Vec<Mode> = Vec::new();
            std::mem::swap(&mut modes, &mut self.modes);
            modes.insert(0, Mode { value });
            self.modes = modes;
            assert(self.levels() =~= seq![value] + modes0);
            if unknown {
                let mut m = String::from_str("Unknown comparison: ");
                m.append(args[2].as_str());
                assert(a[2] == args@[2]@);
                return Reply::Print(m);
            }
            return Reply::Nothing;
        }
        if is_word(&cmd, "else") {
            if self.modes.len() > 0 {
                let v = self.modes[0].value;
                let mut modes: Vec<Mode> = Vec::new();
                std::mem::swap(&mut modes, &mut self.modes);
                modes.set(0, Mode { value: !v });
                self.modes = modes;
                assert(self.levels() =~= modes0.update(0, !modes0[0]));
                return Reply::Nothing;
            }
            return Reply::Print(String::from_str("Syntax error: else found with no previous if"));
        }
        if is_word(&cmd, "fi") {
            if self.modes.len() > 0 {
                let mut modes: Vec<Mode> = Vec::new();
                std::mem::swap(&mut modes, &mut self.modes);
                modes.remove(0);
                self.modes = modes;
                assert(self.levels() =~= modes0.drop_first());
                return Reply::Nothing;
            }
            return Reply::Print(String::from_str("Syntax error: fi found with no previous if"));
        }
        if !self.all_levels_run() {
            return Reply::Nothing;
        }
        match find_char(cmd.as_str(), '=') {
            Some(eq) => {
                self.assign_exec(&args, eq);
                proof {
                    use_type_invariant(&*self);
                }
                Reply::Nothing
            },
            None => match self.command_index(&cmd) {
                Some(k) => Reply::Run(k, args),
                None => {
                    let mut m = String::from_str("Unknown command: '");
                    m.append(cmd.as_str());
                    m.append("'");
                    Reply::Print(m)
                },
            },
        }
    }
}

/// What the terminal's read loop does with a line it read.
#[derive(PartialEq, Eq, Structural)]
pub enum LineKind {
    /// `exit`: leave the loop.
    Exit,
    /// An empty line: read the next one.
    Skip,
    /// Anything else: echo it as `# line` and interpret it.
    Execute,
}

/// Sorts a line read from the console.
pub fn line_kind(line: &str) -> (r: LineKind)
    ensures
        line@ == "exit"@ <==> r == LineKind::Exit,
        line@.len() == 0 <==> r == LineKind::Skip,
{
    proof {
        reveal_strlit("exit");
    }
    if String::from_str(line) == String::from_str("exit") {
        LineKind::Exit
    } else if line.unicode_len() == 0 {
        LineKind::Skip
    } else {
        LineKind::Execute
    }
}

/// The command the terminal runs first when started with a script argument.
pub fn startup_command(script: &str) -> (r: String)
    ensures
        r@ == "run "@ + script@,
{
    let mut c = String::from_str("run ");
    c.append(script);
    c
}

/// A line that reaches argument expansion: not a comment and not `$`.
pub open spec fn is_plain_line(line: Seq<char>) -> bool {
    !(line.len() > 0 && line[0] == '#') && line != seq!['$']
}

/// Comment law: a line that starts with `#` changes nothing and asks for nothing.
pub proof fn law_comment_is_inert(
    vars: Seq<Binding>,
    modes: Seq<bool>,
    names: Seq<Seq<char>>,
    line: Seq<char>,
)
    requires
        line.len() > 0,
        line[0] == '#',
    ensures
        interpret(vars, modes, names, line) == (vars, modes, Outcome::Nothing),
{
}

proof fn lemma_keywords_have_no_equals(s: Seq<char>)
    requires
        first_index_of(s, '=') is Some,
    ensures
        s != "if"@,
        s != "else"@,
        s != "fi"@,
{
    reveal_strlit("if");
    reveal_strlit("else");
    reveal_strlit("fi");
    let i = choose|i: int| is_first_at(s, '=', i);
    assert(is_first_at(s, '=', i));
}

/// Read-after-write law: while every level runs, an assignment `name=value...`
/// with a non-empty name and value leaves exactly one variable of that name,
/// holding that value, so that `$name` expands to it; other variables keep
/// their values.
pub proof fn law_assignment_then_lookup(
    vars: Seq<Binding>,
    modes: Seq<bool>,
    names: Seq<Seq<char>>,
    line: Seq<char>,
    eq: int,
)
    requires
        names_unique(vars),
        all_run(modes),
        is_plain_line(line),
        arguments(line, vars).len() > 0,
        first_index_of(arguments(line, vars)[0], '=') == Some(eq),
        arguments(line, vars)[0].take(eq).len() > 0,
        (arguments(line, vars)[0].skip(eq + 1) + spaced(arguments(line, vars).skip(1))).len() > 0,
    ensures
        ({
            let args = arguments(line, vars);
            let name = args[0].take(eq);
            let value = args[0].skip(eq + 1) + spaced(args.skip(1));
            let (v, m, o) = interpret(vars, modes, names, line);
            &&& o == Outcome::Nothing
            &&& m == modes
            &&& names_unique(v)
            &&& lookup(v, name) matches Some(k) && v[k].1 == value
            &&& expand_word(seq!['$'] + name, v) == seq![value]
            &&& forall|other: Seq<char>|
                other != name ==> (#[trigger] lookup(v, other) matches Some(k) ==> v[k] == vars[k])
                    && lookup(v, other) == lookup(vars, other)
        }),
{
    let args = arguments(line, vars);
    let name = args[0].take(eq);
    let value = args[0].skip(eq + 1) + spaced(args.skip(1));
    lemma_keywords_have_no_equals(args[0]);
    let v = assign(vars, args, eq);
    match lookup(vars, name) {
        Some(k) => {
            assert(is_first_named(vars, name, k));
            assert(is_first_named(v, name, k));
            lemma_first_named_unique(v, name, k);
        },
        None => {
            let k = vars.len() as int;
            assert forall|j: int| 0 <= j < k implies vars[j].0 != name by {
                if vars[j].0 == name {
                    lemma_some_named_has_first(vars, name, j);
                }
            }
            assert(is_first_named(v, name, k));
            lemma_first_named_unique(v, name, k);
        },
    }
    assert((seq!['$'] + name).drop_first() =~= name);
    assert forall|other: Seq<char>| other != name implies (#[trigger] lookup(v, other) matches Some(k)
        ==> v[k] == vars[k]) && lookup(v, other) == lookup(vars, other) by {
        lemma_lookup_other(vars, name, value, other);
    }
}

proof fn lemma_lookup_other(vars: Seq<Binding>, name: Seq<char>, value: Seq<char>, other: Seq<char>)
    requires
        other != name,
    ensures
        ({
            let v = match lookup(vars, name) {
                Some(k) => vars.update(k, (name, value)),
                None => vars.push((name, value)),
            };
            &&& lookup(v, other) == lookup(vars, other)
            &&& (lookup(v, other) matches Some(k) ==> v[k] == vars[k])
        }),
{
    let v = match lookup(vars, name) {
        Some(k) => vars.update(k, (name, value)),
        None => vars.push((name, value)),
    };
    if let Some(k) = lookup(vars, name) {
        assert(is_first_named(vars, name, k));
    }
    match lookup(vars, other) {
        Some(i) => {
            assert(is_first_named(vars, other, i));
            assert(is_first_named(v, other, i));
            lemma_first_named_unique(v, other, i);
        },
        None => {
            if exists|i: int| is_first_named(v, other, i) {
                let i = choose|i: int| is_first_named(v, other, i);
                assert(is_first_named(v, other, i));
                if i < vars.len() {
                    assert(vars[i] == v[i]);
                    assert forall|j: int| 0 <= j < i implies vars[j].0 != other by {
                        assert(v[j].0 != other);
                        if vars[j] != v[j] {
                            assert(vars[j].0 == name);
                        }
                    }
                    assert(is_first_named(vars, other, i));
                } else {
                    assert(v[i].0 == name);
                }
            }
        },
    }
}

/// If some variable is called `name`, a first one is.
proof fn lemma_some_named_has_first(vars: Seq<Binding>, name: Seq<char>, j: int)
    requires
        0 <= j < vars.len(),
        vars[j].0 == name,
    ensures
        lookup(vars, name) is Some,
    decreases j,
{
    if exists|i: int| 0 <= i < j && vars[i].0 == name {
        let i = choose|i: int| 0 <= i < j && vars[i].0 == name;
        lemma_some_named_has_first(vars, name, i);
    } else {
        assert(is_first_named(vars, name, j));
    }
}

proof fn lemma_keywords_distinct()
    ensures
        "if"@ != "else"@,
        "if"@ != "fi"@,
        "else"@ != "fi"@,
{
    reveal_strlit("if");
    reveal_strlit("else");
    reveal_strlit("fi");
    assert("if"@.len() != "else"@.len());
    assert("else"@.len() != "fi"@.len());
    assert("if"@[0] != "fi"@[0]);
}

/// Unset law: while every level runs, an assignment `name=` with nothing after
/// the `=` and no further arguments leaves no variable of that name, so that
/// `$name` expands to nothing.
pub proof fn law_empty_assignment_unsets(
    vars: Seq<Binding>,
    modes: Seq<bool>,
    names: Seq<Seq<char>>,
    line: Seq<char>,
    eq: int,
)
    requires
        names_unique(vars),
        all_run(modes),
        is_plain_line(line),
        arguments(line, vars).len() > 0,
        first_index_of(arguments(line, vars)[0], '=') == Some(eq),
        arguments(line, vars)[0].take(eq).len() > 0,
        (arguments(line, vars)[0].skip(eq + 1) + spaced(arguments(line, vars).skip(1))).len() == 0,
    ensures
        ({
            let name = arguments(line, vars)[0].take(eq);
            let (v, m, o) = interpret(vars, modes, names, line);
            &&& o == Outcome::Nothing
            &&& m == modes
            &&& names_unique(v)
            &&& lookup(v, name) is None
            &&& expand_word(seq!['$'] + name, v) == Seq::<Seq<char>>::empty()
        }),
{
    let args = arguments(line, vars);
    let name = args[0].take(eq);
    lemma_keywords_have_no_equals(args[0]);
    let v = assign(vars, args, eq);
    assert forall|i: int| 0 <= i < v.len() implies v[i].0 != name by {
        match lookup(vars, name) {
            Some(k) => {
                assert(is_first_named(vars, name, k));
                if i < k {
                    assert(v[i] == vars[i]);
                } else {
                    assert(v[i] == vars[i + 1]);
                }
            },
            None => {
                if vars[i].0 == name {
                    lemma_some_named_has_first(vars, name, i);
                }
            },
        }
    }
    if exists|i: int| is_first_named(v, name, i) {
        let i = choose|i: int| is_first_named(v, name, i);
        assert(v[i].0 != name);
    }
    assert((seq!['$'] + name).drop_first() =~= name);
}

/// Nesting law: `if ...` followed by `fi` leaves the variables and the open
/// levels as they were, and `fi` asks for nothing.
pub proof fn law_if_then_fi_restores(
    vars: Seq<Binding>,
    modes: Seq<bool>,
    names: Seq<Seq<char>>,
    opening: Seq<char>,
    closing: Seq<char>,
)
    requires
        is_plain_line(opening),
        is_plain_line(closing),
        arguments(opening, vars).len() > 0,
        arguments(opening, vars)[0] == "if"@,
        arguments(closing, vars).len() > 0,
        arguments(closing, vars)[0] == "fi"@,
    ensures
        ({
            let (v1, m1, o1) = interpret(vars, modes, names, opening);
            let (v2, m2, o2) = interpret(v1, m1, names, closing);
            &&& v1 == vars
            &&& m1.len() == modes.len() + 1
            &&& v2 == vars
            &&& m2 == modes
            &&& o2 == Outcome::Nothing
        }),
{
    lemma_keywords_distinct();
    let args = arguments(opening, vars);
    let m1 = seq![condition_holds(args)] + modes;
    assert(m1.drop_first() =~= modes);
}

/// Innermost-level law: an `if` line opens a new level in front of the open
/// ones: its condition comes first and the levels that were open follow
/// unchanged; the variables stay as they were.
pub proof fn law_if_opens_innermost_level(
    vars: Seq<Binding>,
    modes: Seq<bool>,
    names: Seq<Seq<char>>,
    line: Seq<char>,
)
    requires
        is_plain_line(line),
        arguments(line, vars).len() > 0,
        arguments(line, vars)[0] == "if"@,
    ensures
        ({
            let (v, m, o) = interpret(vars, modes, names, line);
            &&& v == vars
            &&& m.len() == modes.len() + 1
            &&& m[0] == condition_holds(arguments(line, vars))
            &&& forall|j: int| 0 <= j < modes.len() ==> m[j + 1] == modes[j]
        }),
{
}

/// Nesting law: after `if` (condition c1) and `if` (condition c2), `else`
/// negates the inner level only, and `fi` then closes the inner level, leaving
/// the outer one with c1 in front of the levels open before.
pub proof fn law_else_and_fi_act_on_inner_level(
    vars: Seq<Binding>,
    modes: Seq<bool>,
    names: Seq<Seq<char>>,
    outer: Seq<char>,
    inner: Seq<char>,
    flip: Seq<char>,
    close: Seq<char>,
)
    requires
        is_plain_line(outer),
        is_plain_line(inner),
        is_plain_line(flip),
        is_plain_line(close),
        arguments(outer, vars).len() > 0,
        arguments(outer, vars)[0] == "if"@,
        arguments(inner, vars).len() > 0,
        arguments(inner, vars)[0] == "if"@,
        arguments(flip, vars).len() > 0,
        arguments(flip, vars)[0] == "else"@,
        arguments(close, vars).len() > 0,
        arguments(close, vars)[0] == "fi"@,
    ensures
        ({
            let c1 = condition_holds(arguments(outer, vars));
            let c2 = condition_holds(arguments(inner, vars));
            let (v1, m1, o1) = interpret(vars, modes, names, outer);
            let (v2, m2, o2) = interpret(v1, m1, names, inner);
            let (v3, m3, o3) = interpret(v2, m2, names, flip);
            let (v4, m4, o4) = interpret(v3, m3, names, close);
            &&& m3 == seq![!c2, c1] + modes
            &&& m4 == seq![c1] + modes
            &&& v4 == vars
        }),
{
    lemma_keywords_distinct();
    let c1 = condition_holds(arguments(outer, vars));
    let c2 = condition_holds(arguments(inner, vars));
    let m2 = seq![c2] + (seq![c1] + modes);
    assert(m2.update(0, !m2[0]) =~= seq![!c2, c1] + modes);
    assert((seq![!c2, c1] + modes).drop_first() =~= seq![c1] + modes);
}

/// `else` law: `else` twice in a row leaves the open levels as they were.
pub proof fn law_else_twice_restores(
    vars: Seq<Binding>,
    modes: Seq<bool>,
    names: Seq<Seq<char>>,
    line: Seq<char>,
)
    requires
        modes.len() > 0,
        is_plain_line(line),
        arguments(line, vars).len() > 0,
        arguments(line, vars)[0] == "else"@,
    ensures
        ({
            let (v1, m1, o1) = interpret(vars, modes, names, line);
            let (v2, m2, o2) = interpret(v1, m1, names, line);
            &&& m1 == modes.update(0, !modes[0])
            &&& v2 == vars
            &&& m2 == modes
            &&& o1 == Outcome::Nothing
            &&& o2 == Outcome::Nothing
        }),
{
    lemma_keywords_distinct();
    let m1 = modes.update(0, !modes[0]);
    assert(m1.update(0, !m1[0]) =~= modes);
}

/// Suppression law: while some open level does not run, a line whose first
/// argument is not `if`, `else` or `fi` changes nothing and asks for nothing:
/// no variable is set and no command runs.
pub proof fn law_suppressed_lines_are_inert(
    vars: Seq<Binding>,
    modes: Seq<bool>,
    names: Seq<Seq<char>>,
    line: Seq<char>,
)
    requires
        !all_run(modes),
        is_plain_line(line),
        arguments(line, vars).len() > 0,
        arguments(line, vars)[0] != "if"@,
        arguments(line, vars)[0] != "else"@,
        arguments(line, vars)[0] != "fi"@,
    ensures
        interpret(vars, modes, names, line) == (vars, modes, Outcome::Nothing),
{
}

/// Dispatch law: a command runs only while every open level runs, it is the
/// first command of the table with the name of the first argument, and it
/// receives all the arguments; the variables and levels stay as they were.
pub proof fn law_run_requires_all_levels(
    vars: Seq<Binding>,
    modes: Seq<bool>,
    names: Seq<Seq<char>>,
    line: Seq<char>,
)
    ensures
        ({
            let (v, m, o) = interpret(vars, modes, names, line);
            o matches Outcome::Run(k, args) ==> {
                &&& all_run(modes)
                &&& args == arguments(line, vars)
                &&& find_command(names, args[0]) == Some(k)
                &&& v == vars
                &&& m == modes
            }
        }),
{
}

} // verus!
