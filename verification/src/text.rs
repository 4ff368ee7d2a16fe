use vstd::prelude::*;

verus! {

/// `c` has the Unicode `White_Space` property, the set that
/// `char::is_whitespace` tests.
pub open spec fn is_white_space(c: char) -> bool {
    let u = c as u32;
    ||| 0x9 <= u <= 0xD
    ||| u == 0x20
    ||| u == 0x85
    ||| u == 0xA0
    ||| u == 0x1680
    ||| 0x2000 <= u <= 0x200A
    ||| u == 0x2028
    ||| u == 0x2029
    ||| u == 0x202F
    ||| u == 0x205F
    ||| u == 0x3000
}

/// Number of characters before the first white space of `s` (all of `s`
/// when it has none).
pub open spec fn leading_word_len(s: Seq<char>) -> nat
    decreases s.len(),
{
    if s.len() == 0 || is_white_space(s[0]) {
        0
    } else {
        1 + leading_word_len(s.drop_first())
    }
}

/// The words of `s`: its maximal runs of characters that are not white
/// space, from left to right.
pub open spec fn words(s: Seq<char>) -> Seq<Seq<char>>
    decreases s.len(),
{
    if s.len() == 0 {
        seq![]
    } else if is_white_space(s[0]) {
        words(s.drop_first())
    } else {
        proof {
            lemma_leading_word_len_bound(s);
        }
        let n = leading_word_len(s);
        seq![s.take(n as int)] + words(s.skip(n as int))
    }
}

/// The leading run is no longer than the sequence.
pub proof fn lemma_leading_word_len_bound(s: Seq<char>)
    ensures
        leading_word_len(s) <= s.len(),
        s.len() > 0 && !is_white_space(s[0]) ==> leading_word_len(s) >= 1,
    decreases s.len(),
{
    if s.len() > 0 && !is_white_space(s[0]) {
        lemma_leading_word_len_bound(s.drop_first());
    }
}

/// No character of the leading run is white space.
proof fn lemma_leading_word_chars(s: Seq<char>)
    ensures
        forall|j: int| 0 <= j < leading_word_len(s) ==> !is_white_space(#[trigger] s[j]),
    decreases s.len(),
{
    if s.len() > 0 && !is_white_space(s[0]) {
        let t = s.drop_first();
        lemma_leading_word_len_bound(s);
        lemma_leading_word_chars(t);
        assert forall|j: int| 0 <= j < leading_word_len(s) implies !is_white_space(#[trigger] s[j]) by {
            if j > 0 {
                assert(s[j] == t[j - 1]);
            }
        }
    }
}

/// A run of `k` non-white-space characters followed by white space (or by the
/// end) is the leading run.
proof fn lemma_leading_word_len_is(s: Seq<char>, k: int)
    requires
        0 <= k <= s.len(),
        forall|j: int| 0 <= j < k ==> !is_white_space(#[trigger] s[j]),
        k == s.len() || is_white_space(s[k]),
    ensures
        leading_word_len(s) == k,
    decreases k,
{
    if k > 0 {
        let t = s.drop_first();
        assert(!is_white_space(s[0]));
        assert forall|j: int| 0 <= j < k - 1 implies !is_white_space(#[trigger] t[j]) by {
            assert(t[j] == s[j + 1]);
        }
        if k < s.len() {
            assert(t[k - 1] == s[k]);
        }
        lemma_leading_word_len_is(t, k - 1);
    }
}

/// Skipping a white-space character does not change the words that follow.
proof fn lemma_words_skip_space(s: Seq<char>, i: int)
    requires
        0 <= i < s.len(),
        is_white_space(s[i]),
    ensures
        words(s.skip(i)) == words(s.skip(i + 1)),
{
    let t = s.skip(i);
    assert(t[0] == s[i]);
    assert(t.drop_first() =~= s.skip(i + 1));
}

/// The characters `start..end`, none white space, followed by white space or
/// by the end, make the first word of what follows `start`.
proof fn lemma_words_at_word(s: Seq<char>, start: int, end: int)
    requires
        0 <= start < end <= s.len(),
        forall|j: int| start <= j < end ==> !is_white_space(#[trigger] s[j]),
        end == s.len() || is_white_space(s[end]),
    ensures
        words(s.skip(start)) == seq![s.subrange(start, end)] + words(s.skip(end)),
{
    let t = s.skip(start);
    let k = end - start;
    assert forall|j: int| 0 <= j < k implies !is_white_space(#[trigger] t[j]) by {
        assert(t[j] == s[start + j]);
        assert(!is_white_space(s[start + j]));
    }
    if end < s.len() {
        assert(t[k] == s[end]);
    }
    lemma_leading_word_len_is(t, k);
    assert(t[0] == s[start]);
    assert(!is_white_space(s[start]));
    assert(t.take(k) =~= s.subrange(start, end));
    assert(t.skip(k) =~= s.skip(end));
}

/// Every word of a text is non-empty and holds no white space.
pub proof fn law_words_are_nonblank_runs(s: Seq<char>)
    ensures
        forall|i: int|
            0 <= i < words(s).len() ==> #[trigger] words(s)[i].len() > 0 && forall|j: int|
                0 <= j < words(s)[i].len() ==> !is_white_space(#[trigger] words(s)[i][j]),
    decreases s.len(),
{
    if s.len() == 0 {
    } else if is_white_space(s[0]) {
        law_words_are_nonblank_runs(s.drop_first());
        assert(words(s) == words(s.drop_first()));
    } else {
        lemma_leading_word_len_bound(s);
        lemma_leading_word_chars(s);
        let n = leading_word_len(s) as int;
        let rest = s.skip(n);
        law_words_are_nonblank_runs(rest);
        let w = s.take(n);
        assert forall|i: int| 0 <= i < words(s).len() implies #[trigger] words(s)[i].len() > 0
            && forall|j: int| 0 <= j < words(s)[i].len() ==> !is_white_space(#[trigger] words(s)[i][j]) by {
            if i == 0 {
                assert(words(s)[0] == w);
                assert forall|j: int| 0 <= j < w.len() implies !is_white_space(#[trigger] w[j]) by {
                    assert(w[j] == s[j]);
                }
            } else {
                assert(words(s)[i] == words(rest)[i - 1]);
            }
        }
    }
}

/// The leading run stops at a white-space character, unless it takes the
/// whole sequence.
proof fn lemma_leading_word_end(s: Seq<char>)
    ensures
        leading_word_len(s) < s.len() ==> is_white_space(s[leading_word_len(s) as int]),
    decreases s.len(),
{
    if s.len() > 0 && !is_white_space(s[0]) {
        let t = s.drop_first();
        lemma_leading_word_end(t);
        if leading_word_len(s) < s.len() {
            assert(s[leading_word_len(s) as int] == t[leading_word_len(t) as int]);
        }
    }
}

/// A text of white space alone has no word.
pub proof fn law_words_of_blank(s: Seq<char>)
    requires
        forall|i: int| 0 <= i < s.len() ==> is_white_space(#[trigger] s[i]),
    ensures
        words(s) == Seq::<Seq<char>>::empty(),
    decreases s.len(),
{
    if s.len() > 0 {
        let t = s.drop_first();
        assert forall|i: int| 0 <= i < t.len() implies is_white_space(#[trigger] t[i]) by {
            assert(t[i] == s[i + 1]);
        }
        assert(is_white_space(s[0]));
        law_words_of_blank(t);
    }
}

/// A non-empty text without white space is one word, itself.
pub proof fn law_words_of_a_word(w: Seq<char>)
    requires
        w.len() > 0,
        forall|i: int| 0 <= i < w.len() ==> !is_white_space(#[trigger] w[i]),
    ensures
        words(w) == seq![w],
{
    lemma_leading_word_len_is(w, w.len() as int);
    assert(w.take(w.len() as int) =~= w);
    assert(w.skip(w.len() as int) =~= Seq::<char>::empty());
    assert(words(Seq::<char>::empty()) == Seq::<Seq<char>>::empty());
    assert(seq![w] + Seq::<Seq<char>>::empty() =~= seq![w]);
}

/// Cutting a text at a white-space character cuts its words there: the
/// words of the whole are the words before it followed by the words after it.
pub proof fn law_words_split_at_white_space(a: Seq<char>, c: char, b: Seq<char>)
    requires
        is_white_space(c),
    ensures
        words(a + seq![c] + b) == words(a) + words(b),
    decreases a.len(),
{
    let t = a + seq![c] + b;
    if a.len() == 0 {
        assert(t.drop_first() =~= b);
        assert(t[0] == c);
        assert(words(a) == Seq::<Seq<char>>::empty());
        assert(words(a) + words(b) =~= words(b));
    } else if is_white_space(a[0]) {
        let a1 = a.drop_first();
        law_words_split_at_white_space(a1, c, b);
        assert(t[0] == a[0]);
        assert(t.drop_first() =~= a1 + seq![c] + b);
    } else {
        lemma_leading_word_len_bound(a);
        lemma_leading_word_chars(a);
        lemma_leading_word_end(a);
        let n = leading_word_len(a) as int;
        assert forall|j: int| 0 <= j < n implies !is_white_space(#[trigger] t[j]) by {
            assert(t[j] == a[j]);
        }
        if n < a.len() {
            assert(t[n] == a[n]);
        } else {
            assert(t[n] == c);
        }
        lemma_leading_word_len_is(t, n);
        assert(t[0] == a[0]);
        let a2 = a.skip(n);
        law_words_split_at_white_space(a2, c, b);
        assert(t.take(n) =~= a.take(n));
        assert(t.skip(n) =~= a2 + seq![c] + b);
        assert(words(t) == seq![a.take(n)] + words(a2 + seq![c] + b));
        assert(words(a) == seq![a.take(n)] + words(a2));
        assert(seq![a.take(n)] + (words(a2) + words(b)) =~= (seq![a.take(n)] + words(a2)) + words(
            b,
        ));
    }
}

/// `char::is_whitespace`, written out.
pub fn is_white_space_char(c: char) -> (r: bool)
    ensures
        r == is_white_space(c),
{
    let u = c as u32;
    (0x9 <= u && u <= 0xD) || u == 0x20 || u == 0x85 || u == 0xA0 || u == 0x1680 || (0x2000 <= u
        && u <= 0x200A) || u == 0x2028 || u == 0x2029 || u == 0x202F || u == 0x205F || u == 0x3000
}

/// The words of `s`, as `str::split_whitespace` gives them.
pub fn split_words(s: &str) -> (r: Vec<String>)
    ensures
        r@.map_values(|w: String| w@) == words(s@),
{
    let n = s.unicode_len();
    let mut out: Vec<String> = Vec::new();
    let mut i: usize = 0;
    let mut start: usize = 0;
    let mut in_word = false;
    assert(s@.skip(0) =~= s@);
    while i < n
        invariant
            n == s@.len(),
            i <= n,
            start <= i,
            !in_word ==> words(s@) == out@.map_values(|w: String| w@) + words(s@.skip(i as int)),
            in_word ==> words(s@) == out@.map_values(|w: String| w@) + words(
                s@.skip(start as int),
            ),
            in_word ==> start < i,
            in_word ==> forall|j: int| start <= j < i ==> !is_white_space(#[trigger] s@[j]),
        decreases n - i,
    {
        let c = s.get_char(i);
        if is_white_space_char(c) {
            if in_word {
                proof {
                    lemma_words_at_word(s@, start as int, i as int);
                }
                let w = String::from_str(s.substring_char(start, i));
                let ghost before = out@;
                out.push(w);
                assert(out@.map_values(|w: String| w@) =~= before.map_values(|w: String| w@).push(
                    w@,
                ));
                assert(words(s@) == out@.map_values(|w: String| w@) + words(s@.skip(i as int)));
                in_word = false;
            }
            proof {
                lemma_words_skip_space(s@, i as int);
            }
        } else if !in_word {
            in_word = true;
            start = i;
        }
        i = i + 1;
    }
    if in_word {
        proof {
            lemma_words_at_word(s@, start as int, n as int);
        }
        let w = String::from_str(s.substring_char(start, n));
        let ghost before = out@;
        out.push(w);
        assert(out@.map_values(|w: String| w@) =~= before.map_values(|w: String| w@).push(w@));
    }
    assert(s@.skip(n as int) =~= Seq::<char>::empty());
    assert(words(s@.skip(n as int)) == Seq::<Seq<char>>::empty());
    assert(out@.map_values(|w: String| w@) =~= words(s@));
    out
}

} // verus!
