//! Arguments quoted and joined by the action builder split back into the
//! same arguments under the Windows argument rules.
use vstd::prelude::*;

use crate::model::action::{backslashes, is_ascii_whitespace, join_quoted, needs_quotes, quote_spec, quoted_body};

verus! {

/// Where splitting a command-line tail stands: inside quotes or not,
/// whether the last character closed a quoted span, the argument being
/// built, whether one was begun, backslashes not yet resolved, and the
/// arguments completed.
pub struct ArgvState {
    /// Inside a quoted span.
    pub quoted: bool,
    /// The last character closed a quoted span.
    pub closed: bool,
    /// The argument being built.
    pub current: Seq<char>,
    /// Whether an argument was begun.
    pub started: bool,
    /// Backslashes read and not yet resolved.
    pub pending: nat,
    /// Completed arguments.
    pub args: Seq<Seq<char>>,
}

/// Nothing read yet.
pub open spec fn argv_start() -> ArgvState {
    ArgvState { quoted: false, closed: false, current: Seq::empty(), started: false, pending: 0, args: Seq::empty() }
}

/// One character read under the Windows rules for arguments: `2n`
/// backslashes before a quote give `n` backslashes and the quote opens or
/// closes a span, `2n + 1` give `n` and a literal quote, a quote right after
/// a closing quote is literal and reopens the span, other backslashes are
/// literal, and a space or tab outside quotes ends an argument.
pub open spec fn argv_step(st: ArgvState, c: char) -> ArgvState {
    if c == '\\' {
        ArgvState { pending: st.pending + 1, started: true, closed: false, ..st }
    } else if c == '"' {
        let cur = st.current + backslashes(st.pending / 2);
        if st.pending % 2 == 1 {
            ArgvState { current: cur.push('"'), pending: 0, started: true, closed: false, ..st }
        } else if st.closed {
            ArgvState { current: cur.push('"'), pending: 0, started: true, closed: false, quoted: true, ..st }
        } else if st.quoted {
            ArgvState { current: cur, pending: 0, started: true, closed: true, quoted: false, ..st }
        } else {
            ArgvState { current: cur, pending: 0, started: true, closed: false, quoted: true, ..st }
        }
    } else if (c == ' ' || c == '\t') && !st.quoted {
        ArgvState {
            quoted: false,
            closed: false,
            current: Seq::empty(),
            started: false,
            pending: 0,
            args: if st.started { st.args.push(st.current + backslashes(st.pending)) } else { st.args },
        }
    } else {
        ArgvState { current: st.current + backslashes(st.pending) + seq![c], pending: 0, started: true, closed: false, ..st }
    }
}

/// Characters read in order.
pub open spec fn argv_fold(s: Seq<char>, st: ArgvState) -> ArgvState
    decreases s.len(),
{
    if s.len() == 0 {
        st
    } else {
        argv_fold(s.drop_first(), argv_step(st, s[0]))
    }
}

/// The arguments of a command-line tail.
pub open spec fn split_arguments(s: Seq<char>) -> Seq<Seq<char>> {
    let st = argv_fold(s, argv_start());
    if st.started {
        st.args.push(st.current + backslashes(st.pending))
    } else {
        st.args
    }
}

proof fn lemma_fold_concat(x: Seq<char>, y: Seq<char>, st: ArgvState)
    ensures
        argv_fold(x + y, st) == argv_fold(y, argv_fold(x, st)),
    decreases x.len(),
{
    if x.len() > 0 {
        assert((x + y).drop_first() =~= x.drop_first() + y);
        lemma_fold_concat(x.drop_first(), y, argv_step(st, x[0]));
    } else {
        assert(x + y =~= y);
    }
}

proof fn lemma_fold_one(c: char, st: ArgvState)
    ensures
        argv_fold(seq![c], st) == argv_step(st, c),
{
    let one = seq![c];
    assert(one.len() == 1 && one[0] == c);
    assert(one.drop_first() =~= Seq::<char>::empty());
    assert(argv_fold(one.drop_first(), argv_step(st, c)) == argv_step(st, c));
}

proof fn lemma_backslashes_add(a: nat, b: nat)
    ensures
        backslashes(a) + backslashes(b) == backslashes(a + b),
{
    assert(backslashes(a) + backslashes(b) =~= backslashes(a + b));
}

proof fn lemma_fold_backslashes(n: nat, st: ArgvState)
    ensures
        argv_fold(backslashes(n), st) == (if n == 0 { st } else { ArgvState { pending: st.pending + n, started: true, closed: false, ..st } }),
    decreases n,
{
    if n > 0 {
        assert(backslashes(n)[0] == '\\');
        assert(backslashes(n).drop_first() =~= backslashes((n - 1) as nat));
        lemma_fold_backslashes((n - 1) as nat, argv_step(st, '\\'));
    }
}

/// The state after an argument whose text is `a`: outside quotes, begun,
/// its text read with backslashes possibly still pending.
pub open spec fn holds_argument(st: ArgvState, done: Seq<Seq<char>>, a: Seq<char>) -> bool {
    &&& !st.quoted
    &&& st.started
    &&& st.args == done
    &&& st.current + backslashes(st.pending) == a
}

proof fn lemma_plain(a: Seq<char>, st: ArgvState, p: Seq<char>)
    requires
        !st.quoted,
        !st.closed,
        st.current + backslashes(st.pending) == p,
        forall|i: int| 0 <= i < a.len() ==> !is_ascii_whitespace(#[trigger] a[i]) && a[i] != '"',
    ensures
        !argv_fold(a, st).quoted,
        !argv_fold(a, st).closed,
        argv_fold(a, st).args == st.args,
        argv_fold(a, st).started == (st.started || a.len() > 0),
        argv_fold(a, st).current + backslashes(argv_fold(a, st).pending) == p + a,
    decreases a.len(),
{
    if a.len() == 0 {
        assert(p + a =~= p);
    } else {
        let c = a[0];
        let st2 = argv_step(st, c);
        assert(!is_ascii_whitespace(c) && c != '"');
        if c == '\\' {
            lemma_backslashes_add(st.pending, 1);
            assert(st2.current + backslashes(st2.pending) == (p + seq![c]));
        } else {
            assert(st2.current + backslashes(st2.pending) =~= st.current + backslashes(st.pending) + seq![c]);
        }
        assert forall|i: int| 0 <= i < a.drop_first().len() implies !is_ascii_whitespace(#[trigger] a.drop_first()[i])
            && a.drop_first()[i] != '"' by {
            assert(a.drop_first()[i] == a[i + 1]);
        }
        lemma_plain(a.drop_first(), st2, p + seq![c]);
        assert(p + seq![c] + a.drop_first() =~= p + a);
    }
}

proof fn lemma_body(s: Seq<char>, k: nat, st: ArgvState)
    requires
        st.quoted,
        !st.closed,
        st.pending == 0,
        st.started,
    ensures
        argv_fold(quoted_body(s, k), st).quoted,
        !argv_fold(quoted_body(s, k), st).closed,
        argv_fold(quoted_body(s, k), st).started,
        argv_fold(quoted_body(s, k), st).args == st.args,
        argv_fold(quoted_body(s, k), st).pending % 2 == 0,
        argv_fold(quoted_body(s, k), st).current + backslashes(argv_fold(quoted_body(s, k), st).pending / 2)
            == st.current + backslashes(k) + s,
    decreases s.len(),
{
    if s.len() == 0 {
        lemma_fold_backslashes(k * 2, st);
        assert(st.current + backslashes(k) + s =~= st.current + backslashes(k));
    } else if s[0] == '\\' {
        lemma_body(s.drop_first(), k + 1, st);
        lemma_backslashes_add(k, 1);
        assert(backslashes(k + 1) + s.drop_first() =~= backslashes(k) + s);
        assert(st.current + backslashes(k + 1) + s.drop_first() =~= st.current + (backslashes(k + 1) + s.drop_first()));
        assert(st.current + backslashes(k) + s =~= st.current + (backslashes(k) + s));
    } else if s[0] == '"' {
        let head = backslashes(k * 2 + 1) + seq!['"'];
        let rest = quoted_body(s.drop_first(), 0);
        assert(quoted_body(s, k) == head + rest);
        lemma_fold_concat(head, rest, st);
        lemma_fold_concat(backslashes(k * 2 + 1), seq!['"'], st);
        lemma_fold_backslashes(k * 2 + 1, st);
        let st1 = argv_fold(backslashes(k * 2 + 1), st);
        lemma_fold_one('"', st1);
        let st2 = argv_step(st1, '"');
        assert((k * 2 + 1) / 2 == k && (k * 2 + 1) % 2 == 1);
        assert(st2.current == st.current + backslashes(k) + seq!['"']);
        lemma_body(s.drop_first(), 0, st2);
        assert(st2.current + backslashes(0) + s.drop_first() =~= st.current + backslashes(k) + s);
    } else {
        let c = s[0];
        let head = backslashes(k) + seq![c];
        let rest = quoted_body(s.drop_first(), 0);
        assert(quoted_body(s, k) == head + rest);
        lemma_fold_concat(head, rest, st);
        lemma_fold_concat(backslashes(k), seq![c], st);
        lemma_fold_backslashes(k, st);
        let st1 = argv_fold(backslashes(k), st);
        lemma_fold_one(c, st1);
        let st2 = argv_step(st1, c);
        assert(st2.current == st.current + backslashes(k) + seq![c]);
        lemma_body(s.drop_first(), 0, st2);
        assert(st2.current + backslashes(0) + s.drop_first() =~= st.current + backslashes(k) + s);
    }
}

proof fn lemma_quoted_argument(a: Seq<char>, st: ArgvState)
    requires
        !st.quoted,
        !st.closed,
        !st.started,
        st.pending == 0,
        st.current == Seq::<char>::empty(),
    ensures
        holds_argument(argv_fold(quote_spec(a), st), st.args, a),
{
    if needs_quotes(a) {
        let open = seq!['"'];
        let body = quoted_body(a, 0);
        assert(quote_spec(a) == open + body + open);
        lemma_fold_concat(open + body, open, st);
        lemma_fold_concat(open, body, st);
        lemma_fold_one('"', st);
        let st1 = argv_step(st, '"');
        lemma_body(a, 0, st1);
        let st2 = argv_fold(body, st1);
        lemma_fold_one('"', st2);
        let st3 = argv_step(st2, '"');
        assert(st3.current == st2.current + backslashes(st2.pending / 2));
        assert(st3.pending == 0);
        assert(st1.current + backslashes(0) + a =~= a);
        assert(st3.current + backslashes(0) =~= st3.current);
    } else {
        assert(forall|i: int| 0 <= i < a.len() ==> !is_ascii_whitespace(#[trigger] a[i]) && a[i] != '"');
        assert(st.current + backslashes(st.pending) =~= Seq::<char>::empty());
        lemma_plain(a, st, Seq::empty());
        assert(Seq::<char>::empty() + a =~= a);
    }
}

proof fn lemma_joined(args: Seq<Seq<char>>)
    requires
        args.len() > 0,
    ensures
        holds_argument(argv_fold(join_quoted(args), argv_start()), args.drop_last(), args.last()),
    decreases args.len(),
{
    if args.len() == 1 {
        lemma_quoted_argument(args[0], argv_start());
        assert(args.drop_last() =~= Seq::<Seq<char>>::empty());
    } else {
        let prev = args.drop_last();
        lemma_joined(prev);
        let s1 = join_quoted(prev);
        let st1 = argv_fold(s1, argv_start());
        lemma_fold_concat(s1 + seq![' '], quote_spec(args.last()), argv_start());
        lemma_fold_concat(s1, seq![' '], argv_start());
        lemma_fold_one(' ', st1);
        let st2 = argv_step(st1, ' ');
        assert(st2.args == prev.drop_last().push(prev.last()));
        assert(prev.drop_last().push(prev.last()) =~= prev);
        lemma_quoted_argument(args.last(), st2);
    }
}

/// The arguments the action builder quotes and joins with single spaces
/// split back, under the Windows rules for the arguments after the program
/// name, into the same arguments.
pub proof fn lemma_quoted_arguments_split_back(args: Seq<Seq<char>>)
    ensures
        split_arguments(join_quoted(args)) == args,
{
    if args.len() == 0 {
        assert(join_quoted(args) =~= Seq::<char>::empty());
    } else {
        lemma_joined(args);
        assert(args.drop_last().push(args.last()) =~= args);
    }
}

} // verus!
