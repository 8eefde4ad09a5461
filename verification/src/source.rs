//! Which source text `syn` can read.
//!
//! `syn` panics on a type that binds lifetimes and then starts with a lifetime, such as
//! `for<'a> dyn 'a + Trait`. Text in which such a type may stand is told apart here.
use vstd::prelude::*;

verus! {

/// `s` holds `c` at `i`.
pub open spec fn at(s: Seq<char>, i: int, c: char) -> bool {
    0 <= i < s.len() && s[i] == c
}

/// A character that cannot be seen, or is not ASCII. All white space is among these.
pub open spec fn blank(c: char) -> bool {
    !('!' <= c <= '~')
}

/// The end of the line that `i` is on, past the line break.
pub open spec fn line_end(s: Seq<char>, i: int) -> int
    decreases s.len() - i,
{
    if i >= s.len() {
        s.len() as int
    } else if s[i] == '\n' {
        i + 1
    } else {
        line_end(s, i + 1)
    }
}

/// The end of the block comment that `i` is in, where `depth` of them are open. Where it is not
/// closed, the end of the text.
pub open spec fn comment_end(s: Seq<char>, i: int, depth: int) -> int
    decreases s.len() - i,
{
    if i + 1 >= s.len() {
        s.len() as int
    } else if s[i] == '/' && s[i + 1] == '*' {
        comment_end(s, i + 2, depth + 1)
    } else if s[i] == '*' && s[i + 1] == '/' {
        if depth <= 1 {
            i + 2
        } else {
            comment_end(s, i + 2, depth - 1)
        }
    } else {
        comment_end(s, i + 1, depth)
    }
}

/// A line ends past where it goes on.
pub proof fn lemma_line_end(s: Seq<char>, i: int)
    requires
        0 <= i <= s.len(),
    ensures
        i <= line_end(s, i) <= s.len(),
        i < s.len() ==> i < line_end(s, i),
    decreases s.len() - i,
{
    if i < s.len() && s[i] != '\n' {
        lemma_line_end(s, i + 1);
    }
}

/// A block comment ends past where it goes on.
pub proof fn lemma_comment_end(s: Seq<char>, i: int, depth: int)
    requires
        0 <= i <= s.len(),
    ensures
        i <= comment_end(s, i, depth) <= s.len(),
        i < s.len() ==> i < comment_end(s, i, depth),
    decreases s.len() - i,
{
    if i + 1 < s.len() {
        if s[i] == '/' && s[i + 1] == '*' {
            lemma_comment_end(s, i + 2, depth + 1);
        } else if s[i] == '*' && s[i + 1] == '/' {
            lemma_comment_end(s, i + 2, depth - 1);
        } else {
            lemma_comment_end(s, i + 1, depth);
        }
    }
}

/// The first position, from `i` on, that is neither blank nor in a comment.
pub open spec fn skip(s: Seq<char>, i: int) -> int
    decreases s.len() - i,
{
    if i < 0 || i >= s.len() {
        i
    } else if blank(s[i]) {
        skip(s, i + 1)
    } else if s[i] == '/' && at(s, i + 1, '/') {
        proof {
            lemma_line_end(s, i);
        }
        skip(s, line_end(s, i))
    } else if s[i] == '/' && at(s, i + 1, '*') {
        proof {
            lemma_comment_end(s, i, 0);
        }
        skip(s, comment_end(s, i, 0))
    } else {
        i
    }
}

/// Lifetimes are bound at `i`: there is `for`, then `<`.
pub open spec fn binder_at(s: Seq<char>, i: int) -> bool {
    &&& at(s, i, 'f') && at(s, i + 1, 'o') && at(s, i + 2, 'r')
    &&& at(s, skip(s, i + 3), '<')
}

/// What follows a `>` at `i` is `dyn`, then a lifetime.
pub open spec fn lifetime_object_at(s: Seq<char>, i: int) -> bool {
    let j = skip(s, i + 1);
    &&& at(s, i, '>')
    &&& at(s, j, 'd') && at(s, j + 1, 'y') && at(s, j + 2, 'n')
    &&& at(s, skip(s, j + 3), '\'')
}

/// No type in `s` binds lifetimes and then starts with a lifetime.
pub open spec fn readable(s: Seq<char>) -> bool {
    forall|i: int, j: int|
        0 <= i < j && #[trigger] binder_at(s, i) ==> !#[trigger] lifetime_object_at(s, j)
}

/// The characters of a text.
fn characters(text: &str) -> (chars: Vec<char>)
    ensures
        chars@ == text@,
{
    let mut chars: Vec<char> = Vec::new();
    for c in it: text.chars()
        invariant
            chars@ == it.seq().take(it.index()),
            it.seq() == text@,
    {
        chars.push(c);
    }
    chars
}

/// Whether `s` holds `c` at `i`.
fn holds(s: &Vec<char>, i: usize, c: char) -> (held: bool)
    ensures
        held == at(s@, i as int, c),
{
    i < s.len() && s[i] == c
}

/// The first position, from `i` on, that is neither blank nor in a comment.
fn skipped(s: &Vec<char>, i: usize) -> (j: usize)
    requires
        i <= s@.len(),
    ensures
        j == skip(s@, i as int),
        i <= j <= s@.len(),
{
    let mut j: usize = i;
    while j < s.len()
        invariant
            i <= j <= s@.len(),
            skip(s@, j as int) == skip(s@, i as int),
        ensures
            i <= j <= s@.len(),
            j == skip(s@, i as int),
        decreases s@.len() - j,
    {
        if !('!' <= s[j] && s[j] <= '~') {
            j += 1;
        } else if s[j] == '/' && holds(s, j + 1, '/') {
            proof {
                lemma_line_end(s@, j as int);
            }
            j = end_of_line(s, j);
        } else if s[j] == '/' && holds(s, j + 1, '*') {
            proof {
                lemma_comment_end(s@, j as int, 0);
            }
            j = end_of_comment(s, j);
        } else {
            return j;
        }
    }
    j
}

/// The end of the line that `i` is on, past the line break.
fn end_of_line(s: &Vec<char>, i: usize) -> (j: usize)
    requires
        i <= s@.len(),
    ensures
        j == line_end(s@, i as int),
{
    let mut j: usize = i;
    while j < s.len()
        invariant
            i <= j <= s@.len(),
            line_end(s@, j as int) == line_end(s@, i as int),
        decreases s@.len() - j,
    {
        if s[j] == '\n' {
            return j + 1;
        }
        j += 1;
    }
    j
}

/// The end of the block comment that starts at `i`.
fn end_of_comment(s: &Vec<char>, i: usize) -> (j: usize)
    requires
        i < s@.len(),
    ensures
        j == comment_end(s@, i as int, 0),
{
    let mut j: usize = i;
    let mut depth: usize = 0;
    while j < s.len() && s.len() - j > 1
        invariant
            i <= j <= s@.len(),
            depth <= j,
            comment_end(s@, j as int, depth as int) == comment_end(s@, i as int, 0),
        decreases s@.len() - j,
    {
        if s[j] == '/' && s[j + 1] == '*' {
            depth += 1;
            j += 2;
        } else if s[j] == '*' && s[j + 1] == '/' {
            if depth <= 1 {
                return j + 2;
            }
            depth -= 1;
            j += 2;
        } else {
            j += 1;
        }
    }
    s.len()
}

/// Whether no type in a text binds lifetimes and then starts with a lifetime.
pub fn is_readable(text: &str) -> (is: bool)
    ensures
        is == readable(text@),
{
    let s = characters(text);
    let mut bound = false;
    for j in 0..s.len()
        invariant
            s@ == text@,
            bound == exists|i: int| 0 <= i < j && #[trigger] binder_at(s@, i),
            forall|i: int, k: int|
                0 <= i < k < j && #[trigger] binder_at(s@, i) ==> !#[trigger] lifetime_object_at(
                    s@,
                    k,
                ),
    {
        if bound && starts_with_lifetime(&s, j) {
            assert(lifetime_object_at(s@, j as int));
            return false;
        }
        if binds_lifetimes(&s, j) {
            bound = true;
            assert(binder_at(s@, j as int));
        }
    }
    true
}

/// Whether lifetimes are bound at `i`.
fn binds_lifetimes(s: &Vec<char>, i: usize) -> (binds: bool)
    requires
        i < s@.len(),
    ensures
        binds == binder_at(s@, i as int),
{
    if !(s.len() - i > 2 && s[i] == 'f' && s[i + 1] == 'o' && s[i + 2] == 'r') {
        return false;
    }
    holds(s, skipped(s, i + 3), '<')
}

/// Whether what follows a `>` at `i` is `dyn`, then a lifetime.
fn starts_with_lifetime(s: &Vec<char>, i: usize) -> (starts: bool)
    requires
        i < s@.len(),
    ensures
        starts == lifetime_object_at(s@, i as int),
{
    if !(i < s.len() && s[i] == '>') {
        return false;
    }
    let j = skipped(s, i + 1);
    if !(s.len() - j > 2 && s[j] == 'd' && s[j + 1] == 'y' && s[j + 2] == 'n') {
        return false;
    }
    holds(s, skipped(s, j + 3), '\'')
}

/// Blanks are skipped: what follows them is found.
proof fn lemma_skip_blanks(s: Seq<char>, i: int, j: int)
    requires
        0 <= i <= j < s.len(),
        forall|k: int| i <= k < j ==> !('!' <= #[trigger] s[k] <= '~'),
        '!' <= s[j] <= '~',
        s[j] != '/',
    ensures
        skip(s, i) == j,
    decreases j - i,
{
    if i < j {
        assert(!('!' <= s[i] <= '~'));
        lemma_skip_blanks(s, i + 1, j);
    }
}

/// What a search for the next thing finds is not before where it starts.
proof fn lemma_skip_goes_on(s: Seq<char>, i: int)
    requires
        0 <= i,
    ensures
        i <= skip(s, i),
    decreases s.len() - i,
{
    if i < s.len() {
        if blank(s[i]) {
            lemma_skip_goes_on(s, i + 1);
        } else if s[i] == '/' && at(s, i + 1, '/') {
            lemma_line_end(s, i);
            lemma_skip_goes_on(s, line_end(s, i));
        } else if s[i] == '/' && at(s, i + 1, '*') {
            lemma_comment_end(s, i, 0);
            lemma_skip_goes_on(s, comment_end(s, i, 0));
        }
    }
}

/// Text in which a type binds lifetimes and then starts with a lifetime is told apart, whatever
/// stands around it and however far its parts stand from each other.
pub proof fn law_bound_lifetimes_before_a_lifetime_are_found(
    text: &str,
    can: bool,
    f: int,
    lt: int,
    gt: int,
    d: int,
    q: int,
)
    requires
        call_ensures(is_readable, (text,), can),
        0 <= f && f + 3 <= lt < gt < d && d + 3 <= q < text@.len(),
        text@[f] == 'f' && text@[f + 1] == 'o' && text@[f + 2] == 'r',
        text@[lt] == '<',
        text@[gt] == '>',
        text@[d] == 'd' && text@[d + 1] == 'y' && text@[d + 2] == 'n',
        text@[q] == '\'',
        forall|k: int| f + 3 <= k < lt ==> !('!' <= #[trigger] text@[k] <= '~'),
        forall|k: int| gt < k < d ==> !('!' <= #[trigger] text@[k] <= '~'),
        forall|k: int| d + 3 <= k < q ==> !('!' <= #[trigger] text@[k] <= '~'),
    ensures
        !can,
{
    let s = text@;
    lemma_skip_blanks(s, f + 3, lt);
    lemma_skip_blanks(s, gt + 1, d);
    lemma_skip_blanks(s, d + 3, q);
    assert(binder_at(s, f));
    assert(lifetime_object_at(s, gt));
}

/// Text is refused only where `for`, `<`, then `>`, then `dyn`, then `'` stand in it, in this
/// order.
pub proof fn law_other_text_is_readable(text: &str, can: bool)
    requires
        call_ensures(is_readable, (text,), can),
    ensures
        !can ==> exists|f: int, gt: int, d: int, q: int|
            #![trigger text@[f], text@[gt], text@[d], text@[q]]
            {
                &&& 0 <= f < gt < d && d + 3 <= q < text@.len()
                &&& text@[f] == 'f' && text@[f + 1] == 'o' && text@[f + 2] == 'r'
                &&& text@[gt] == '>'
                &&& text@[d] == 'd' && text@[d + 1] == 'y' && text@[d + 2] == 'n'
                &&& text@[q] == '\''
            },
{
    if !can {
        let s = text@;
        let (f, gt) = choose|f: int, gt: int|
            0 <= f < gt && #[trigger] binder_at(s, f) && #[trigger] lifetime_object_at(s, gt);
        let d = skip(s, gt + 1);
        let q = skip(s, d + 3);
        lemma_skip_goes_on(s, gt + 1);
        lemma_skip_goes_on(s, d + 3);
        assert(s[f] == 'f' && s[gt] == '>' && s[d] == 'd' && s[q] == '\'');
    }
}

} // verus!
