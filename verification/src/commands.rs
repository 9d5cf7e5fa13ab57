use vstd::prelude::*;
use crate::text::{
    is_space, trim_end,
    join_spaced, push_char, push_hex_byte, hex_byte, spaced, to_num, to_num_spec, trim, trim_start,
    trim_start_str, trim_str, words_from,
};

verus! {

/// What `echo` prints: the arguments after the command name, joined by
/// spaces, without white space at either end.
pub open spec fn echo_spec(args: Seq<Seq<char>>) -> Seq<char> {
    trim(spaced(words_from(args, 1)))
}

pub fn echo_text(args: &Vec<String>) -> (r: String)
    ensures
        r@ == echo_spec(args.deep_view()),
{
    let joined = join_spaced(args, 1);
    trim_str(joined.as_str())
}

/// A word of a command line that holds no white space.
pub open spec fn plain_word(w: Seq<char>) -> bool {
    w.len() > 0 && forall|i: int| 0 <= i < w.len() ==> !is_space(#[trigger] w[i])
}

proof fn lemma_trim_start_append(x: Seq<char>, y: Seq<char>)
    requires
        x.len() > 0,
        !is_space(x.last()),
    ensures
        trim_start(x + y) == trim_start(x) + y,
        trim_start(x).len() > 0,
        trim_start(x).last() == x.last(),
    decreases x.len(),
{
    if is_space(x[0]) {
        assert((x + y).drop_first() =~= x.drop_first() + y);
        lemma_trim_start_append(x.drop_first(), y);
    } else {
        assert((x + y)[0] == x[0]);
    }
}

/// Echo law: `echo w` prints `w`, and one more word at the end of `echo`'s
/// arguments is printed after one space at the end of what it printed before;
/// so `echo` prints all its words, in order, separated by single spaces.
pub proof fn law_echo_prints_every_word(args: Seq<Seq<char>>, w: Seq<char>)
    requires
        args.len() >= 1,
        forall|i: int| 1 <= i < args.len() ==> plain_word(#[trigger] args[i]),
        plain_word(w),
    ensures
        args.len() == 1 ==> echo_spec(args.push(w)) == w,
        args.len() >= 2 ==> echo_spec(args.push(w)) == echo_spec(args) + seq![' '] + w,
{
    let longer = args.push(w);
    assert(words_from(longer, 1).drop_last() =~= words_from(args, 1));
    assert(words_from(longer, 1).last() == w);
    let s = spaced(words_from(args, 1));
    assert(w[w.len() - 1] == w.last());
    assert(!is_space(w.last()));
    if args.len() == 1 {
        assert(words_from(args, 1) =~= Seq::<Seq<char>>::empty());
        assert(spaced(words_from(longer, 1)) =~= seq![' '] + w);
        assert(!is_space(w[0]));
        assert((seq![' '] + w).drop_first() =~= w);
        lemma_trim_start_append(w, Seq::empty());
        assert(w + Seq::<char>::empty() =~= w);
    } else {
        let ws = words_from(args, 1);
        let last = ws.last();
        assert(last == args[args.len() - 1]);
        assert(plain_word(last));
        assert(last[last.len() - 1] == last.last());
        assert(s.last() == last.last());
        lemma_trim_start_append(s, seq![' '] + w);
        assert(spaced(words_from(longer, 1)) =~= s + (seq![' '] + w));
        let t = trim_start(s);
        assert(trim_end(t) == t);
        assert(t + (seq![' '] + w) =~= t + seq![' '] + w);
        assert((t + seq![' '] + w).last() == w.last());
    }
}

/// What `send` does with its arguments.
pub enum SendPlan {
    /// Fewer than three arguments: print the usage.
    Usage,
    /// Open `path`, write `payload`, then read the answer.
    Send { path: String, payload: String },
}

/// The request that `send url data...` writes: the data words joined by
/// spaces and ended by an empty line, without leading white space.
pub open spec fn send_payload(args: Seq<Seq<char>>) -> Seq<char> {
    trim_start(spaced(words_from(args, 2)) + "\r\n\r\n"@)
}

pub fn send_plan(args: &Vec<String>) -> (r: SendPlan)
    ensures
        args.len() < 3 <==> r is Usage,
        r matches SendPlan::Send { path, payload } ==> path@ == args.deep_view()[1]
            && payload@ == send_payload(args.deep_view()),
{
    if args.len() < 3 {
        return SendPlan::Usage;
    }
    let path = args[1].clone();
    assert(args.deep_view()[1] == args@[1]@);
    let mut body = join_spaced(args, 2);
    body.append("\r\n\r\n");
    let payload = trim_start_str(body.as_str());
    SendPlan::Send { path, payload }
}

/// The two lines `send` prints when it has too few arguments.
pub fn send_usage() -> (r: (String, String))
    ensures
        r.0@ == "Error: incorrect arguments"@,
        r.1@ == "Usage: send [url] [data]"@,
{
    (String::from_str("Error: incorrect arguments"), String::from_str("Usage: send [url] [data]"))
}

/// The argument at `i`, as a number the way `sleep` reads it (0 when missing).
pub open spec fn numeric_arg(args: Seq<Seq<char>>, i: int) -> usize {
    if 0 <= i < args.len() {
        to_num_spec(args[i])
    } else {
        0
    }
}

/// The seconds and nanoseconds that `sleep secs nanos` asks for: each parsed
/// as a decimal number, missing ones 0, converted to the duration's field types.
pub fn sleep_request(args: &Vec<String>) -> (r: (i64, i32))
    ensures
        r.0 == numeric_arg(args.deep_view(), 1) as i64,
        r.1 == numeric_arg(args.deep_view(), 2) as i32,
{
    let secs: i64 = if args.len() > 1 {
        assert(args.deep_view()[1] == args@[1]@);
        to_num(args[1].as_str()) as i64
    } else {
        0
    };
    let nanos: i32 = if args.len() > 2 {
        assert(args.deep_view()[2] == args@[2]@);
        to_num(args[2].as_str()) as i32
    } else {
        0
    };
    (secs, nanos)
}

/// The first argument after the command name, or the empty string.
pub open spec fn path_arg_spec(args: Seq<Seq<char>>) -> Seq<char> {
    if args.len() > 1 {
        args[1]
    } else {
        Seq::empty()
    }
}

/// The path that `url` and `url_hex` open.
pub fn path_arg(args: &Vec<String>) -> (r: String)
    ensures
        r@ == path_arg_spec(args.deep_view()),
{
    if args.len() > 1 {
        assert(args.deep_view()[1] == args@[1]@);
        args[1].clone()
    } else {
        String::new()
    }
}

/// Each byte after a space, in upper-case hexadecimal.
pub open spec fn hex_words(bytes: Seq<u8>) -> Seq<char>
    decreases bytes.len(),
{
    if bytes.len() == 0 {
        Seq::empty()
    } else {
        hex_words(bytes.drop_last()) + seq![' '] + hex_byte(bytes.last())
    }
}

/// The line that `url_hex` prints for the bytes it read.
pub fn hex_dump(bytes: &[u8]) -> (r: String)
    ensures
        r@ == "HEX:"@ + hex_words(bytes@),
{
    let mut line = String::from_str("HEX:");
    let mut i: usize = 0;
    assert(bytes@.take(0) =~= Seq::<u8>::empty());
    assert(line@ =~= "HEX:"@ + hex_words(bytes@.take(0)));
    while i < bytes.len()
        invariant
            i <= bytes.len(),
            line@ == "HEX:"@ + hex_words(bytes@.take(i as int)),
        decreases bytes.len() - i,
    {
        push_char(&mut line, ' ');
        push_hex_byte(&mut line, bytes[i]);
        assert(bytes@.take(i + 1).drop_last() =~= bytes@.take(i as int));
        assert(line@ =~= "HEX:"@ + hex_words(bytes@.take(i + 1)));
        i = i + 1;
    }
    assert(bytes@.take(bytes.len() as int) =~= bytes@);
    line
}

/// What `wget host request` does.
pub enum WgetPlan {
    /// No host given.
    NoUrl,
    /// A host but no request given.
    NoRequest,
    /// Connect to `connection`, send `request`, and save the answer at `save_to`.
    Fetch { connection: String, request: String, save_to: String },
}

pub fn wget_plan(args: &Vec<String>) -> (r: WgetPlan)
    ensures
        args.len() < 2 <==> r is NoUrl,
        args.len() == 2 <==> r is NoRequest,
        r matches WgetPlan::Fetch { connection, request, save_to } ==> {
            &&& connection@ == "tcp://"@ + args.deep_view()[1]
            &&& request@ == "GET "@ + args.deep_view()[2] + " HTTP/1.1"@
            &&& save_to@ == args.deep_view()[2]
        },
{
    if args.len() < 2 {
        return WgetPlan::NoUrl;
    }
    if args.len() < 3 {
        return WgetPlan::NoRequest;
    }
    assert(args.deep_view()[1] == args@[1]@);
    assert(args.deep_view()[2] == args@[2]@);
    let mut connection = String::from_str("tcp://");
    connection.append(args[1].as_str());
    let mut request = String::from_str("GET ");
    request.append(args[2].as_str());
    request.append(" HTTP/1.1");
    WgetPlan::Fetch { connection, request, save_to: args[2].clone() }
}

/// What `wget` prints when an argument is missing; nothing when it fetches.
pub fn wget_complaint(plan: &WgetPlan) -> (r: Option<String>)
    ensures
        plan is NoUrl ==> (r matches Some(m) && m@ == "No url given"@),
        plan is NoRequest ==> (r matches Some(m) && m@ == "No request given"@),
        plan is Fetch ==> r is None,
{
    match plan {
        WgetPlan::NoUrl => Some(String::from_str("No url given")),
        WgetPlan::NoRequest => Some(String::from_str("No request given")),
        WgetPlan::Fetch { .. } => None,
    }
}

/// What `help` prints, given the list it was made with.
pub fn help_text(list: &String) -> (r: String)
    ensures
        r@ == "Commands:"@ + list@,
{
    let mut text = String::from_str("Commands:");
    text.append(list.as_str());
    text
}

} // verus!
