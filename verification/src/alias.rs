//! Command aliases: a single-line file whose text holds `%s` placeholder
//! tokens. The line is split on the literal two-character token `%s`, the
//! pieces are joined back with one argument inserted between consecutive
//! pieces, and the joined line is split on single spaces into the program
//! and its argv. Arguments left over after all tokens are satisfied are
//! appended to the end of the argv.

use vstd::prelude::*;

use crate::models::DispatchError;
use crate::models::DispatchErrorModel;
use crate::models::Invocation;
use crate::models::InvocationModel;

verus! {

/// The line split on each non-overlapping `%s`, scanning left to right.
/// Always yields one more piece than there are tokens.
pub open spec fn split_token(s: Seq<char>) -> Seq<Seq<char>>
    decreases s.len(),
{
    if s.len() < 2 {
        seq![s]
    } else if s[0] == '%' && s[1] == 's' {
        seq![Seq::<char>::empty()] + split_token(s.skip(2))
    } else {
        let rest = split_token(s.drop_first());
        seq![seq![s[0]] + rest[0]] + rest.drop_first()
    }
}

pub proof fn lemma_split_token_len(s: Seq<char>)
    ensures
        split_token(s).len() >= 1,
    decreases s.len(),
{
    if s.len() < 2 {
    } else if s[0] == '%' && s[1] == 's' {
        lemma_split_token_len(s.skip(2));
    } else {
        lemma_split_token_len(s.drop_first());
    }
}

/// The line split on each single space.
pub open spec fn split_spaces(s: Seq<char>) -> Seq<Seq<char>>
    decreases s.len(),
{
    if s.len() == 0 {
        seq![s]
    } else if s[0] == ' ' {
        seq![Seq::<char>::empty()] + split_spaces(s.drop_first())
    } else {
        let rest = split_spaces(s.drop_first());
        seq![seq![s[0]] + rest[0]] + rest.drop_first()
    }
}

pub proof fn lemma_split_spaces_len(s: Seq<char>)
    ensures
        split_spaces(s).len() >= 1,
    decreases s.len(),
{
    if s.len() == 0 {
    } else if s[0] == ' ' {
        lemma_split_spaces_len(s.drop_first());
    } else {
        lemma_split_spaces_len(s.drop_first());
    }
}

/// The pieces concatenated back in order with one argument inserted
/// between consecutive pieces, consumed in order from the front of `args`.
pub open spec fn spec_substitute(pieces: Seq<Seq<char>>, args: Seq<Seq<char>>) -> Seq<char>
    recommends
        pieces.len() >= 1,
        args.len() >= pieces.len() - 1,
    decreases pieces.len(),
{
    if pieces.len() <= 1 {
        if pieces.len() == 1 {
            pieces[0]
        } else {
            Seq::empty()
        }
    } else {
        pieces[0] + args[0] + spec_substitute(pieces.drop_first(), args.drop_first())
    }
}

/// What building an invocation from an alias line yields: the multi-line
/// check comes first, then the token count check, then substitution and
/// the naive single-space split into program and argv.
pub open spec fn spec_alias_invocation(line: Seq<char>, args: Seq<Seq<char>>) -> Result<
    InvocationModel,
    DispatchErrorModel,
> {
    if line.contains('\n') {
        Err(DispatchErrorModel::MultiLineAlias)
    } else if args.len() < split_token(line).len() - 1 {
        Err(DispatchErrorModel::MissingAliasArgument { alias_text: line })
    } else {
        let tokens = split_spaces(spec_substitute(split_token(line), args));
        Ok(
            InvocationModel {
                program: tokens[0],
                argv: tokens.drop_first() + args.skip(split_token(line).len() - 1),
            },
        )
    }
}

/// Ghost model of a dispatch result.
pub open spec fn dispatch_result_model(r: Result<Invocation, DispatchError>) -> Result<
    InvocationModel,
    DispatchErrorModel,
> {
    match r {
        Ok(inv) => Ok(inv@),
        Err(e) => Err(e@),
    }
}

/// Whether the line holds a line break.
fn contains_newline(s: &str) -> (r: bool)
    ensures
        r == s@.contains('\n'),
{
    let n = s.unicode_len();
    let mut i: usize = 0;
    while i < n
        invariant
            0 <= i <= n,
            n == s@.len(),
            forall|j: int| 0 <= j < i ==> s@[j] != '\n',
        decreases n - i,
    {
        if s.get_char(i) == '\n' {
            assert(s@.contains('\n'));
            return true;
        }
        i = i + 1;
    }
    assert(!s@.contains('\n'));
    false
}

/// The suffix of `s` from `i` on, split on each `%s`.
fn split_token_from(s: &str, i: usize) -> (r: Vec<String>)
    requires
        i <= s@.len(),
    ensures
        r.deep_view() == split_token(s@.skip(i as int)),
        r.len() >= 1,
    decreases s@.len() - i,
{
    let n = s.unicode_len();
    if n - i < 2 {
        let piece = s.substring_char(i, n).to_owned();
        let mut r: Vec<String> = Vec::new();
        r.push(piece);
        assert(r.deep_view() =~= seq![s@.skip(i as int)]) by {
            assert(s@.subrange(i as int, n as int) =~= s@.skip(i as int));
        }
        r
    } else if s.get_char(i) == '%' && s.get_char(i + 1) == 's' {
        let mut r = split_token_from(s, i + 2);
        r.insert(0, String::new());
        proof {
            assert(s@.skip(i as int)[0] == s@[i as int]);
            assert(s@.skip(i as int)[1] == s@[i as int + 1]);
            assert(s@.skip(i as int).skip(2) =~= s@.skip(i as int + 2));
            assert(r.deep_view() =~= seq![Seq::<char>::empty()] + split_token(
                s@.skip(i as int + 2),
            ));
        }
        r
    } else {
        let mut r = split_token_from(s, i + 1);
        let mut piece = s.substring_char(i, i + 1).to_owned();
        piece.append(r[0].as_str());
        let ghost old_first = r.deep_view()[0];
        r.remove(0);
        r.insert(0, piece);
        proof {
            let tail = s@.skip(i as int);
            assert(tail[0] == s@[i as int]);
            assert(tail.drop_first() =~= s@.skip(i as int + 1));
            assert(s@.subrange(i as int, i as int + 1) =~= seq![s@[i as int]]);
            assert(r.deep_view() =~= seq![seq![tail[0]] + split_token(tail.drop_first())[0]]
                + split_token(tail.drop_first()).drop_first());
        }
        r
    }
}

/// The suffix of `s` from `i` on, split on each single space.
fn split_spaces_from(s: &str, i: usize) -> (r: Vec<String>)
    requires
        i <= s@.len(),
    ensures
        r.deep_view() == split_spaces(s@.skip(i as int)),
        r.len() >= 1,
    decreases s@.len() - i,
{
    let n = s.unicode_len();
    if i == n {
        let mut r: Vec<String> = Vec::new();
        r.push(String::new());
        assert(r.deep_view() =~= seq![s@.skip(i as int)]) by {
            assert(s@.skip(i as int) =~= Seq::<char>::empty());
        }
        r
    } else if s.get_char(i) == ' ' {
        let mut r = split_spaces_from(s, i + 1);
        r.insert(0, String::new());
        proof {
            assert(s@.skip(i as int)[0] == s@[i as int]);
            assert(s@.skip(i as int).drop_first() =~= s@.skip(i as int + 1));
            assert(r.deep_view() =~= seq![Seq::<char>::empty()] + split_spaces(
                s@.skip(i as int + 1),
            ));
        }
        r
    } else {
        let mut r = split_spaces_from(s, i + 1);
        let mut piece = s.substring_char(i, i + 1).to_owned();
        piece.append(r[0].as_str());
        r.remove(0);
        r.insert(0, piece);
        proof {
            let tail = s@.skip(i as int);
            assert(tail[0] == s@[i as int]);
            assert(tail.drop_first() =~= s@.skip(i as int + 1));
            assert(s@.subrange(i as int, i as int + 1) =~= seq![s@[i as int]]);
            assert(r.deep_view() =~= seq![seq![tail[0]] + split_spaces(tail.drop_first())[0]]
                + split_spaces(tail.drop_first()).drop_first());
        }
        r
    }
}

/// Appending one more piece (and the argument before it) extends the
/// substitution on the right.
proof fn lemma_substitute_push(
    pieces: Seq<Seq<char>>,
    args: Seq<Seq<char>>,
    a: Seq<char>,
    p: Seq<char>,
)
    requires
        pieces.len() >= 1,
        args.len() == pieces.len() - 1,
    ensures
        spec_substitute(pieces.push(p), args.push(a)) == spec_substitute(pieces, args) + a + p,
    decreases pieces.len(),
{
    if pieces.len() == 1 {
        assert(pieces.push(p)[0] == pieces[0]);
        assert(args.push(a)[0] == a);
        assert(pieces.push(p).drop_first() =~= seq![p]);
        assert(args.push(a).drop_first() =~= Seq::<Seq<char>>::empty());
        assert(spec_substitute(seq![p], Seq::<Seq<char>>::empty()) == p);
    } else {
        lemma_substitute_push(pieces.drop_first(), args.drop_first(), a, p);
        assert(pieces.push(p).drop_first() =~= pieces.drop_first().push(p));
        assert(args.push(a).drop_first() =~= args.drop_first().push(a));
        assert(pieces.push(p)[0] == pieces[0]);
        assert(args.push(a)[0] == args[0]);
        assert(pieces[0] + args[0] + (spec_substitute(pieces.drop_first(), args.drop_first()) + a
            + p) =~= (pieces[0] + args[0] + spec_substitute(pieces.drop_first(), args.drop_first()))
            + a + p);
    }
}

/// Joins the pieces back together, inserting the first `pieces.len() - 1`
/// arguments in order between consecutive pieces.
fn substitute(pieces: &Vec<String>, args: &Vec<String>) -> (r: String)
    requires
        pieces.len() >= 1,
        args.len() >= pieces.len() - 1,
    ensures
        r@ == spec_substitute(pieces.deep_view(), args.deep_view()),
{
    let mut r: String = pieces[0].clone();
    let mut t: usize = 1;
    let n = pieces.len();
    assert(pieces.deep_view().take(1) =~= seq![pieces.deep_view()[0]]);
    assert(spec_substitute(seq![pieces.deep_view()[0]], args.deep_view().take(0))
        == pieces.deep_view()[0]);
    while t < n
        invariant
            1 <= t <= n,
            n == pieces.len(),
            args.len() >= n - 1,
            r@ == spec_substitute(pieces.deep_view().take(t as int), args.deep_view().take(t as int - 1)),
        decreases n - t,
    {
        r.append(args[t - 1].as_str());
        r.append(pieces[t].as_str());
        proof {
            lemma_substitute_push(
                pieces.deep_view().take(t as int),
                args.deep_view().take(t as int - 1),
                args.deep_view()[t as int - 1],
                pieces.deep_view()[t as int],
            );
            assert(pieces.deep_view().take(t as int + 1) =~= pieces.deep_view().take(
                t as int,
            ).push(pieces.deep_view()[t as int]));
            assert(args.deep_view().take(t as int) =~= args.deep_view().take(t as int - 1).push(
                args.deep_view()[t as int - 1],
            ));
        }
        t = t + 1;
    }
    assert(pieces.deep_view().take(n as int) =~= pieces.deep_view());
    proof {
        lemma_substitute_take_args(pieces.deep_view(), args.deep_view(), n as int - 1);
    }
    r
}

/// The substitution reads only the first `pieces.len() - 1` arguments.
proof fn lemma_substitute_take_args(pieces: Seq<Seq<char>>, args: Seq<Seq<char>>, k: int)
    requires
        pieces.len() >= 1,
        k == pieces.len() - 1,
        args.len() >= k,
    ensures
        spec_substitute(pieces, args.take(k)) == spec_substitute(pieces, args),
    decreases pieces.len(),
{
    if pieces.len() > 1 {
        lemma_substitute_take_args(pieces.drop_first(), args.drop_first(), k - 1);
        assert(args.take(k)[0] == args[0]);
        assert(args.take(k).drop_first() =~= args.drop_first().take(k - 1));
    } else {
        assert(args.take(0) =~= Seq::<Seq<char>>::empty());
    }
}

/// Builds the invocation an alias line describes: rejects a multi-line
/// alias, substitutes the arguments into the `%s` tokens, splits the
/// result on single spaces into program and argv, and appends the unused
/// arguments to the argv.
pub fn build_alias_invocation(alias_text: &str, args: &Vec<String>) -> (r: Result<
    Invocation,
    DispatchError,
>)
    ensures
        dispatch_result_model(r) == spec_alias_invocation(alias_text@, args.deep_view()),
{
    if contains_newline(alias_text) {
        return Err(DispatchError::MultiLineAlias);
    }
    assert(alias_text@.skip(0) =~= alias_text@);
    let pieces = split_token_from(alias_text, 0);
    let needed = pieces.len() - 1;
    if args.len() < needed {
        return Err(
            DispatchError::MissingAliasArgument { alias_text: alias_text.to_owned() },
        );
    }
    let command_line = substitute(&pieces, args);
    assert(command_line@.skip(0) =~= command_line@);
    let mut tokens = split_spaces_from(command_line.as_str(), 0);
    let program = tokens.remove(0);
    let mut argv = tokens;
    let ghost split = split_spaces(spec_substitute(split_token(alias_text@), args.deep_view()));
    assert(argv.deep_view() =~= split.drop_first());
    let mut t: usize = needed;
    let n = args.len();
    assert(argv.deep_view() =~= split.drop_first() + args.deep_view().skip(needed as int).take(0));
    while t < n
        invariant
            needed <= t <= n,
            n == args.len(),
            split.len() >= 1,
            argv.deep_view() == split.drop_first() + args.deep_view().skip(needed as int).take(
                t - needed,
            ),
        decreases n - t,
    {
        let ghost before = argv.deep_view();
        argv.push(args[t].clone());
        proof {
            assert(argv.deep_view() =~= before.push(args.deep_view()[t as int]));
            assert(args.deep_view().skip(needed as int).take(t + 1 - needed)
                =~= args.deep_view().skip(needed as int).take(t - needed).push(
                args.deep_view()[t as int],
            ));
            assert(argv.deep_view() =~= split.drop_first() + args.deep_view().skip(
                needed as int,
            ).take(t + 1 - needed));
        }
        t = t + 1;
    }
    assert(args.deep_view().skip(needed as int).take(n - needed) =~= args.deep_view().skip(
        needed as int,
    ));
    Ok(Invocation { program, argv })
}

} // verus!
