//! The text messages exchanged between the daemon, the plugin runner and plugins.
//!
//! A call travels as `fn:<name>` optionally followed by a space and the arguments joined
//! by spaces; a plugin splits it back into the function name and its payload.
use vstd::prelude::*;
use crate::text::{
    chars_of, extend_chars, find_ws, find_ws_exec, has_prefix, is_ws, join_seq, join_strings,
    lemma_find_ws_at, lemma_find_ws_from, lemma_find_ws_none, lemma_trim_after_trim_end, lemma_trim_end_at,
    lemma_trim_end_shape, lemma_trim_noop, lemma_trim_shape, lemma_trim_start_noop, starts_with,
    string_of, sub_chars, trim_chars, trim_end_seq, trim_seq, views,
};

verus! {

/// A call of a plugin function.
pub struct CallPayload {
    pub fn_name: String,
    pub args: Vec<String>,
}

/// A plugin's successful answer to a call.
pub struct ResultPayload {
    pub ok: bool,
    pub output: String,
}

/// A plugin's failure to answer a call.
pub struct ErrorPayload {
    pub code: u32,
    pub message: String,
}

/// A message between the daemon and a plugin's runner.
#[allow(inconsistent_fields)]
pub enum Message {
    /// The daemon greets a runner.
    Hello,
    /// The runner answers with its plugin's description.
    HelloOk(crate::runner::HelloOkPayload),
    /// The daemon calls a function.
    Call { request_id: u32, data: CallPayload },
    /// The runner answers a call.
    Result { request_id: u32, data: ResultPayload },
    /// The runner reports a failed call.
    Error { request_id: u32, data: ErrorPayload },
    /// Either side is alive.
    Heartbeat,
}

/// The prefix that marks a function name on the wire.
pub open spec fn fn_prefix() -> Seq<char> {
    seq!['f', 'n', ':']
}

/// The head of a message without its `fn:` prefix, if it has one.
pub open spec fn strip_fn_prefix(h: Seq<char>) -> Seq<char> {
    if has_prefix(h, fn_prefix()) {
        h.skip(3)
    } else {
        h
    }
}

/// The function name and payload that a plugin reads from a raw message: the trimmed
/// message is cut at its first whitespace character; the head loses an `fn:` prefix and
/// the rest is trimmed.
pub open spec fn spec_split_message(raw: Seq<char>) -> (Seq<char>, Seq<char>) {
    let t = trim_seq(raw);
    match find_ws(t) {
        Some(i) => (strip_fn_prefix(t.take(i)), trim_seq(t.skip(i + 1))),
        None => (strip_fn_prefix(t), Seq::empty()),
    }
}

/// The wire text of a call.
pub open spec fn spec_call_to_wire(name: Seq<char>, args: Seq<Seq<char>>) -> Seq<char> {
    if args.len() == 0 {
        fn_prefix() + name
    } else {
        fn_prefix() + name + seq![' '] + join_seq(args, seq![' '])
    }
}

fn fn_prefix_exec() -> (r: Vec<char>)
    ensures
        r@ == fn_prefix(),
{
    let mut r = Vec::new();
    r.push('f');
    r.push('n');
    r.push(':');
    assert(r@ =~= fn_prefix());
    r
}

fn strip_fn_prefix_exec(h: &[char]) -> (r: Vec<char>)
    ensures
        r@ == strip_fn_prefix(h@),
{
    let p = fn_prefix_exec();
    if starts_with(h, p.as_slice()) {
        sub_chars(h, 3, h.len())
    } else {
        let r = sub_chars(h, 0, h.len());
        assert(r@ =~= h@);
        r
    }
}

/// The JSON text of a message's payload: none when the payload is empty, which stands for
/// no arguments (JSON `null`).
pub fn payload_text(raw_payload: &str) -> (r: Option<String>)
    ensures
        raw_payload@.len() == 0 ==> r is None,
        raw_payload@.len() > 0 ==> (r matches Some(t) && t@ == raw_payload@),
{
    let v = chars_of(raw_payload);
    if v.len() == 0 {
        None
    } else {
        Some(string_of(v.as_slice()))
    }
}

/// Splits a plugin message into the function name and its raw payload.
pub fn split_message(raw: &str) -> (r: (String, String))
    ensures
        (r.0@, r.1@) == spec_split_message(raw@),
{
    let all = chars_of(raw);
    let t = trim_chars(all.as_slice());
    match find_ws_exec(t.as_slice()) {
        Some(i) => {
            proof {
                lemma_find_ws_from(t@, 0);
            }
            assert(i < t.len());
            let head = sub_chars(t.as_slice(), 0, i);
            let rest = sub_chars(t.as_slice(), i + 1, t.len());
            let name = strip_fn_prefix_exec(head.as_slice());
            let payload = trim_chars(rest.as_slice());
            assert(head@ =~= t@.take(i as int));
            assert(rest@ =~= t@.skip(i + 1));
            (string_of(name.as_slice()), string_of(payload.as_slice()))
        },
        None => {
            let name = strip_fn_prefix_exec(t.as_slice());
            (string_of(name.as_slice()), String::new())
        },
    }
}

/// The wire text that the runner sends to a plugin for a call: `fn:<name>` when there are
/// no arguments, else `fn:<name> <args joined by spaces>`.
pub fn call_to_wire(call: &CallPayload) -> (r: String)
    ensures
        r@ == spec_call_to_wire(call.fn_name@, views(call.args@)),
{
    let mut w = fn_prefix_exec();
    let name = chars_of(call.fn_name.as_str());
    extend_chars(&mut w, name.as_slice());
    if call.args.len() > 0 {
        w.push(' ');
        let mut sp = Vec::new();
        sp.push(' ');
        let j = join_strings(call.args.as_slice(), sp.as_slice());
        extend_chars(&mut w, j.as_slice());
        assert(sp@ =~= seq![' ']);
        assert(w@ =~= fn_prefix() + call.fn_name@ + seq![' '] + join_seq(
            views(call.args@),
            seq![' '],
        ));
    } else {
        assert(views(call.args@).len() == 0);
    }
    string_of(w.as_slice())
}

/// A plugin reads back what the runner wrote: the function name of a call whose name holds
/// no whitespace, and the arguments joined by spaces and trimmed.
pub proof fn law_call_wire_roundtrip(name: Seq<char>, args: Seq<Seq<char>>)
    requires
        forall|j: int| 0 <= j < name.len() ==> !is_ws(name[j]),
    ensures
        spec_split_message(spec_call_to_wire(name, args)) == (
            name,
            trim_seq(join_seq(args, seq![' '])),
        ),
{
    let a = fn_prefix() + name;
    assert forall|j: int| 0 <= j < a.len() implies !is_ws(a[j]) by {
        if j >= 3 {
            assert(a[j] == name[j - 3]);
        }
    }
    assert(has_prefix(a, fn_prefix())) by {
        assert(a.take(3) =~= fn_prefix());
    }
    assert(a.skip(3) =~= name);
    let w = spec_call_to_wire(name, args);
    if args.len() == 0 {
        lemma_trim_noop(a);
        lemma_find_ws_none(a);
        assert(join_seq(args, seq![' ']) =~= Seq::<char>::empty());
        lemma_trim_noop(Seq::<char>::empty());
    } else {
        let jn = join_seq(args, seq![' ']);
        assert(w =~= a + seq![' '] + jn);
        lemma_trim_start_noop(w);
        lemma_trim_end_shape(jn);
        let k = choose|k: int|
            0 <= k <= jn.len() && trim_end_seq(jn) == jn.take(k) && (forall|j: int|
                k <= j < jn.len() ==> is_ws(jn[j])) && (k == 0 || !is_ws(jn[k - 1]));
        let n = a.len() as int;
        if k == 0 {
            assert forall|j: int| n <= j < w.len() implies is_ws(w[j]) by {
                if j > n {
                    assert(w[j] == jn[j - n - 1]);
                }
            }
            assert(w[n - 1] == a[n - 1]);
            lemma_trim_end_at(w, n);
            assert(w.take(n) =~= a);
            lemma_find_ws_none(a);
            lemma_trim_shape(jn);
            assert(jn.take(0) =~= Seq::<char>::empty());
            lemma_trim_after_trim_end(jn);
            lemma_trim_noop(Seq::<char>::empty());
        } else {
            let cut = n + 1 + k;
            assert forall|j: int| cut <= j < w.len() implies is_ws(w[j]) by {
                assert(w[j] == jn[j - n - 1]);
            }
            assert(w[cut - 1] == jn[k - 1]);
            lemma_trim_end_at(w, cut);
            let t = w.take(cut);
            assert(trim_seq(w) == t);
            assert(t[n] == ' ');
            assert forall|j: int| 0 <= j < n implies !is_ws(t[j]) by {
                assert(t[j] == a[j]);
            }
            lemma_find_ws_at(t, n);
            assert(t.take(n) =~= a);
            assert(t.skip(n + 1) =~= jn.take(k));
            lemma_trim_after_trim_end(jn);
        }
    }
}

} // verus!
