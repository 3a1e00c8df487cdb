//! The argument normalizer.
//!
//! Raw process arguments are first re-tokenized: every token is split on its
//! interior space characters, so a token that already carries an embedded
//! space (from shell quoting, or from an earlier merge) falls back apart.
//! A single left-to-right pass then merges each flag token (one that starts
//! with `-`) with the immediately following non-flag token into one display
//! string `"-flag value"`.  A flag absorbs at most one value, and a flag
//! followed by another flag stays alone.

use vstd::prelude::*;

verus! {

/// A flag token starts with `-`.
pub open spec fn is_flag(s: Seq<char>) -> bool {
    s.len() > 0 && s[0] == '-'
}

/// A token that contains no space character.
pub open spec fn space_free(s: Seq<char>) -> bool {
    forall|i: int| 0 <= i < s.len() ==> s[i] != ' '
}

/// Splitting `s` on spaces, with `cur` the piece collected so far.
/// Mirrors `str::split(' ')`: pieces may be empty, and the empty string
/// splits into one empty piece.
pub open spec fn split_from(s: Seq<char>, cur: Seq<char>) -> Seq<Seq<char>>
    decreases s.len(),
{
    if s.len() == 0 {
        seq![cur]
    } else if s[0] == ' ' {
        seq![cur] + split_from(s.drop_first(), Seq::empty())
    } else {
        split_from(s.drop_first(), cur.push(s[0]))
    }
}

/// The pieces of `s`, split on every space character.
pub open spec fn split_spaces(s: Seq<char>) -> Seq<Seq<char>> {
    split_from(s, Seq::empty())
}

/// All input tokens split on spaces, in order.
pub open spec fn split_all(args: Seq<Seq<char>>) -> Seq<Seq<char>>
    decreases args.len(),
{
    if args.len() == 0 {
        Seq::empty()
    } else {
        split_spaces(args[0]) + split_all(args.drop_first())
    }
}

/// One merged display string: flag, one space, value.
pub open spec fn joined(flag: Seq<char>, value: Seq<char>) -> Seq<char> {
    flag + seq![' '] + value
}

/// The merge pass over the tokens still to come, with `buf` the output built
/// so far and `latch` set exactly when the previous token was merged into a
/// flag (a flag absorbs at most one value).
pub open spec fn merge_from(tokens: Seq<Seq<char>>, buf: Seq<Seq<char>>, latch: bool) -> Seq<
    Seq<char>,
>
    decreases tokens.len(),
{
    if tokens.len() == 0 {
        buf
    } else {
        let next = tokens[0];
        if buf.len() > 0 && !is_flag(next) && is_flag(buf.last()) && !latch {
            merge_from(
                tokens.drop_first(),
                buf.update(buf.len() - 1, joined(buf.last(), next)),
                true,
            )
        } else {
            merge_from(tokens.drop_first(), buf.push(next), false)
        }
    }
}

/// The merge pass over a whole token stream.
pub open spec fn merge_tokens(tokens: Seq<Seq<char>>) -> Seq<Seq<char>> {
    merge_from(tokens, Seq::empty(), false)
}

/// What normalization returns: split every argument on spaces, then merge
/// each flag with its following value.
pub open spec fn normalize(args: Seq<Seq<char>>) -> Seq<Seq<char>> {
    merge_tokens(split_all(args))
}

/// Every piece of a split is space-free, as long as the piece collected so
/// far is.
proof fn lemma_split_from_space_free(s: Seq<char>, cur: Seq<char>)
    requires
        space_free(cur),
    ensures
        forall|i: int|
            0 <= i < split_from(s, cur).len() ==> #[trigger] space_free(split_from(s, cur)[i]),
    decreases s.len(),
{
    if s.len() == 0 {
        assert(split_from(s, cur) == seq![cur]);
        assert(split_from(s, cur)[0] == cur);
    } else if s[0] == ' ' {
        lemma_split_from_space_free(s.drop_first(), Seq::empty());
        assert forall|i: int| 0 <= i < split_from(s, cur).len() implies #[trigger] space_free(
            split_from(s, cur)[i],
        ) by {
            if i == 0 {
                assert(split_from(s, cur)[0] == cur);
            } else {
                assert(split_from(s, cur)[i] == split_from(s.drop_first(), Seq::empty())[i - 1]);
            }
        }
    } else {
        assert(space_free(cur.push(s[0]))) by {
            assert forall|i: int| 0 <= i < cur.push(s[0]).len() implies cur.push(s[0])[i]
                != ' ' by {
                if i < cur.len() {
                    assert(cur.push(s[0])[i] == cur[i]);
                }
            }
        }
        lemma_split_from_space_free(s.drop_first(), cur.push(s[0]));
        assert forall|i: int| 0 <= i < split_from(s, cur).len() implies #[trigger] space_free(
            split_from(s, cur)[i],
        ) by {
            assert(split_from(s, cur)[i] == split_from(s.drop_first(), cur.push(s[0]))[i]);
        }
    }
}

/// A space-free string splits into the one piece that continues what was
/// collected so far.
proof fn lemma_split_space_free(a: Seq<char>, cur: Seq<char>)
    requires
        space_free(a),
    ensures
        split_from(a, cur) == seq![cur + a],
    decreases a.len(),
{
    if a.len() == 0 {
        assert(cur + a =~= cur);
        assert(split_from(a, cur) =~= seq![cur + a]);
    } else {
        assert(a[0] != ' ');
        lemma_split_space_free(a.drop_first(), cur.push(a[0]));
        assert(cur.push(a[0]) + a.drop_first() =~= cur + a);
    }
}

/// Splitting a space-free string, one space, and a remainder yields the
/// space-free string as one piece and then the split of the remainder.
proof fn lemma_split_from_joined(a: Seq<char>, b: Seq<char>, cur: Seq<char>)
    requires
        space_free(a),
    ensures
        split_from(a + seq![' '] + b, cur) == seq![cur + a] + split_spaces(b),
    decreases a.len(),
{
    let s = a + seq![' '] + b;
    if a.len() == 0 {
        assert(s[0] == ' ');
        assert(s.drop_first() =~= b);
        assert(cur + a =~= cur);
        assert(split_from(s, cur) =~= seq![cur + a] + split_spaces(b));
    } else {
        assert(s[0] == a[0] && a[0] != ' ');
        assert(s.drop_first() =~= a.drop_first() + seq![' '] + b);
        lemma_split_from_joined(a.drop_first(), b, cur.push(a[0]));
        assert(cur.push(a[0]) + a.drop_first() =~= cur + a);
    }
}

/// Splitting a concatenation splits each part.
proof fn lemma_split_all_append(s1: Seq<Seq<char>>, s2: Seq<Seq<char>>)
    ensures
        split_all(s1 + s2) == split_all(s1) + split_all(s2),
    decreases s1.len(),
{
    if s1.len() == 0 {
        assert(s1 + s2 =~= s2);
        assert(split_all(s1) =~= Seq::<Seq<char>>::empty());
        assert(split_all(s1) + split_all(s2) =~= split_all(s2));
    } else {
        assert((s1 + s2)[0] == s1[0]);
        assert((s1 + s2).drop_first() =~= s1.drop_first() + s2);
        lemma_split_all_append(s1.drop_first(), s2);
        assert(split_spaces(s1[0]) + (split_all(s1.drop_first()) + split_all(s2))
            =~= (split_spaces(s1[0]) + split_all(s1.drop_first())) + split_all(s2));
    }
}

/// Splitting one string is one step of splitting them all.
proof fn lemma_split_all_one(x: Seq<char>)
    ensures
        split_all(seq![x]) == split_spaces(x),
{
    assert(seq![x].drop_first() =~= Seq::<Seq<char>>::empty());
    assert(split_spaces(x) + split_all(Seq::<Seq<char>>::empty()) =~= split_spaces(x));
}

/// Every token that the split pass produces is space-free.
proof fn lemma_split_all_space_free(args: Seq<Seq<char>>)
    ensures
        forall|i: int|
            0 <= i < split_all(args).len() ==> #[trigger] space_free(split_all(args)[i]),
    decreases args.len(),
{
    if args.len() > 0 {
        lemma_split_from_space_free(args[0], Seq::empty());
        lemma_split_all_space_free(args.drop_first());
        let head = split_spaces(args[0]);
        let tail = split_all(args.drop_first());
        assert forall|i: int| 0 <= i < split_all(args).len() implies #[trigger] space_free(
            split_all(args)[i],
        ) by {
            if i < head.len() {
                assert(split_all(args)[i] == head[i]);
            } else {
                assert(split_all(args)[i] == tail[i - head.len()]);
            }
        }
    }
}

/// Splitting what the merge pass built gives back the space-free tokens the
/// pass consumed, after those already in the buffer.
proof fn lemma_merge_split_roundtrip(tokens: Seq<Seq<char>>, buf: Seq<Seq<char>>, latch: bool)
    requires
        forall|i: int| 0 <= i < tokens.len() ==> #[trigger] space_free(tokens[i]),
        buf.len() > 0 && !latch ==> space_free(buf.last()),
    ensures
        split_all(merge_from(tokens, buf, latch)) == split_all(buf) + tokens,
    decreases tokens.len(),
{
    if tokens.len() == 0 {
        assert(split_all(buf) + tokens =~= split_all(buf));
    } else {
        let next = tokens[0];
        assert(space_free(next));
        assert forall|i: int| 0 <= i < tokens.drop_first().len() implies #[trigger] space_free(
            tokens.drop_first()[i],
        ) by {
            assert(tokens.drop_first()[i] == tokens[i + 1]);
        }
        if buf.len() > 0 && !is_flag(next) && is_flag(buf.last()) && !latch {
            let last = buf.last();
            let merged = joined(last, next);
            let buf2 = buf.update(buf.len() - 1, merged);
            assert(buf2 =~= buf.drop_last() + seq![merged]);
            lemma_split_all_append(buf.drop_last(), seq![merged]);
            lemma_split_all_one(merged);
            lemma_split_from_joined(last, next, Seq::empty());
            lemma_split_space_free(next, Seq::empty());
            assert(Seq::<char>::empty() + last =~= last);
            assert(Seq::<char>::empty() + next =~= next);
            assert(split_spaces(merged) =~= seq![last, next]);
            assert(buf =~= buf.drop_last() + seq![last]);
            lemma_split_all_append(buf.drop_last(), seq![last]);
            lemma_split_all_one(last);
            lemma_split_space_free(last, Seq::empty());
            assert(split_all(buf2) =~= split_all(buf) + seq![next]);
            lemma_merge_split_roundtrip(tokens.drop_first(), buf2, true);
            assert((split_all(buf) + seq![next]) + tokens.drop_first()
                =~= split_all(buf) + tokens);
        } else {
            let buf2 = buf.push(next);
            assert(buf2 =~= buf + seq![next]);
            lemma_split_all_append(buf, seq![next]);
            lemma_split_all_one(next);
            lemma_split_space_free(next, Seq::empty());
            assert(Seq::<char>::empty() + next =~= next);
            assert(split_all(buf2) =~= split_all(buf) + seq![next]);
            lemma_merge_split_roundtrip(tokens.drop_first(), buf2, false);
            assert((split_all(buf) + seq![next]) + tokens.drop_first()
                =~= split_all(buf) + tokens);
        }
    }
}

/// Normalization is idempotent: a second pass changes nothing, because every
/// merged string splits back into exactly the tokens it was merged from.
pub proof fn lemma_normalize_idempotent(args: Seq<Seq<char>>)
    ensures
        normalize(normalize(args)) == normalize(args),
{
    let tokens = split_all(args);
    lemma_split_all_space_free(args);
    lemma_merge_split_roundtrip(tokens, Seq::empty(), false);
    assert(split_all(Seq::<Seq<char>>::empty()) =~= Seq::<Seq<char>>::empty());
    assert(split_all(merge_tokens(tokens)) =~= tokens);
}

/// Whether the string starts with `-`.
fn starts_with_dash(s: &String) -> (r: bool)
    ensures
        r == is_flag(s@),
{
    let st: &str = s.as_str();
    if st.unicode_len() == 0 {
        false
    } else {
        st.get_char(0) == '-'
    }
}

/// The pieces of one string, split on every space, in order.
fn split_token(s: &String) -> (pieces: Vec<String>)
    ensures
        pieces.deep_view() == split_spaces(s@),
{
    let st: &str = s.as_str();
    let n = st.unicode_len();
    let mut pieces: Vec<String> = Vec::new();
    let mut cur = String::new();
    let mut i: usize = 0;
    proof {
        assert(s@.subrange(0, n as int) =~= s@);
        assert(pieces.deep_view() =~= Seq::<Seq<char>>::empty());
        assert(Seq::<Seq<char>>::empty() + split_from(s@, cur@) =~= split_from(s@, cur@));
    }
    while i < n
        invariant
            n == s@.len(),
            st@ == s@,
            i <= n,
            split_spaces(s@) == pieces.deep_view() + split_from(
                s@.subrange(i as int, n as int),
                cur@,
            ),
        decreases n - i,
    {
        let ghost rest = s@.subrange(i as int, n as int);
        let ghost done = pieces.deep_view();
        let c = st.get_char(i);
        proof {
            assert(rest[0] == c);
            assert(rest.drop_first() =~= s@.subrange(i + 1, n as int));
        }
        if c == ' ' {
            let ghost cur_view = cur@;
            pieces.push(cur);
            cur = String::new();
            proof {
                assert(pieces.deep_view() =~= done.push(cur_view));
                assert(done.push(cur_view) + split_from(rest.drop_first(), Seq::empty())
                    =~= done + (seq![cur_view] + split_from(rest.drop_first(), Seq::empty())));
            }
        } else {
            crate::textops::push_char(&mut cur, c);
        }
        i = i + 1;
    }
    proof {
        assert(s@.subrange(n as int, n as int) =~= Seq::<char>::empty());
    }
    let ghost done = pieces.deep_view();
    let ghost cur_view = cur@;
    pieces.push(cur);
    proof {
        assert(pieces.deep_view() =~= done.push(cur_view));
        assert(done.push(cur_view) =~= done + seq![cur_view]);
    }
    pieces
}

/// Every argument split on spaces, all pieces in one stream.
pub(crate) fn split_arguments(arguments: &Vec<String>) -> (tokens: Vec<String>)
    ensures
        tokens.deep_view() == split_all(arguments.deep_view()),
{
    let mut tokens: Vec<String> = Vec::new();
    let mut k: usize = 0;
    proof {
        assert(arguments.deep_view().subrange(0, arguments@.len() as int)
            =~= arguments.deep_view());
        assert(tokens.deep_view() + split_all(arguments.deep_view())
            =~= split_all(arguments.deep_view()));
    }
    while k < arguments.len()
        invariant
            k <= arguments@.len(),
            split_all(arguments.deep_view()) == tokens.deep_view() + split_all(
                arguments.deep_view().subrange(k as int, arguments@.len() as int),
            ),
        decreases arguments@.len() - k,
    {
        let ghost rest = arguments.deep_view().subrange(k as int, arguments@.len() as int);
        let ghost done = tokens.deep_view();
        let mut pieces = split_token(&arguments[k]);
        proof {
            assert(rest[0] == arguments.deep_view()[k as int]);
            assert(arguments.deep_view()[k as int] == arguments@[k as int]@);
            assert(rest.drop_first() =~= arguments.deep_view().subrange(
                k + 1,
                arguments@.len() as int,
            ));
        }
        let ghost pieces_view = pieces.deep_view();
        tokens.append(&mut pieces);
        proof {
            assert(tokens.deep_view() =~= done + pieces_view);
            assert((done + pieces_view) + split_all(rest.drop_first())
                =~= done + (pieces_view + split_all(rest.drop_first())));
        }
        k = k + 1;
    }
    proof {
        let empty = arguments.deep_view().subrange(
            arguments@.len() as int,
            arguments@.len() as int,
        );
        assert(empty =~= Seq::<Seq<char>>::empty());
        assert(tokens.deep_view() + split_all(empty) =~= tokens.deep_view());
    }
    tokens
}

/// The merge pass: each flag token absorbs the next non-flag token, once.
pub(crate) fn merge_pass(tokens: Vec<String>) -> (out: Vec<String>)
    ensures
        out.deep_view() == merge_tokens(tokens.deep_view()),
{
    let mut buf: Vec<String> = Vec::new();
    let mut latch = false;
    let mut k: usize = 0;
    proof {
        assert(tokens.deep_view().subrange(0, tokens@.len() as int) =~= tokens.deep_view());
        assert(buf.deep_view() =~= Seq::<Seq<char>>::empty());
    }
    while k < tokens.len()
        invariant
            k <= tokens@.len(),
            merge_tokens(tokens.deep_view()) == merge_from(
                tokens.deep_view().subrange(k as int, tokens@.len() as int),
                buf.deep_view(),
                latch,
            ),
        decreases tokens@.len() - k,
    {
        let ghost rest = tokens.deep_view().subrange(k as int, tokens@.len() as int);
        let ghost done = buf.deep_view();
        let next = tokens[k].clone();
        proof {
            assert(rest[0] == tokens.deep_view()[k as int]);
            assert(next@ == tokens@[k as int]@);
            assert(rest.drop_first() =~= tokens.deep_view().subrange(
                k + 1,
                tokens@.len() as int,
            ));
        }
        let merge_here = buf.len() > 0 && !starts_with_dash(&next) && starts_with_dash(
            &buf[buf.len() - 1],
        ) && !latch;
        if merge_here {
            proof {
                assert(buf.deep_view().last() == buf@.last()@);
            }
            let last = buf.remove(buf.len() - 1);
            let merged = last.concat(" ").concat(next.as_str());
            proof {
                reveal_strlit(" ");
                assert(" "@ =~= seq![' ']);
                assert(merged@ =~= joined(last@, next@));
            }
            buf.push(merged);
            proof {
                assert(buf.deep_view() =~= done.update(done.len() - 1, joined(last@, next@)));
            }
            latch = true;
        } else {
            buf.push(next);
            proof {
                assert(buf.deep_view() =~= done.push(rest[0]));
            }
            latch = false;
        }
        k = k + 1;
    }
    proof {
        let empty = tokens.deep_view().subrange(tokens@.len() as int, tokens@.len() as int);
        assert(empty =~= Seq::<Seq<char>>::empty());
    }
    buf
}

/// Turns the raw argument list into the displayed one: every token is split
/// on its interior spaces, and each flag token is merged with the
/// immediately following non-flag token into one `"-flag value"` string.
pub fn format_arguments(arguments: Vec<String>) -> (result: Vec<String>)
    ensures
        result.deep_view() == normalize(arguments.deep_view()),
{
    let tokens = split_arguments(&arguments);
    merge_pass(tokens)
}

} // verus!
