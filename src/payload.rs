//! Payload assembly: each file's text, cut to a number of lines if asked,
//! between a header and a footer that name the file.

use vstd::prelude::*;
use crate::args::CatLlmArgs;

verus! {

/// `s` up to its `n`-th newline (not included), or all of `s` when it has
/// fewer than `n` newlines: its first `n` lines, joined by newlines.
pub open spec fn first_lines(s: Seq<char>, n: nat) -> Seq<char>
    decreases s.len(),
{
    if n == 0 || s.len() == 0 {
        Seq::empty()
    } else if s[0] == '\n' {
        if n == 1 {
            Seq::empty()
        } else {
            seq!['\n'] + first_lines(s.drop_first(), (n - 1) as nat)
        }
    } else {
        seq![s[0]] + first_lines(s.drop_first(), n)
    }
}

/// The number of newline characters in `s`.
pub open spec fn newline_count(s: Seq<char>) -> nat
    decreases s.len(),
{
    if s.len() == 0 {
        0
    } else {
        newline_count(s.drop_first()) + if s[0] == '\n' { 1nat } else { 0nat }
    }
}

/// The number of lines of `s` when split at each newline; the empty text is one empty line.
pub open spec fn line_count(s: Seq<char>) -> nat {
    newline_count(s) + 1
}

/// The line that marks a cut text, with the newline before it.
pub open spec fn truncation_marker() -> Seq<char> {
    seq!['\n', '.', '.', '.', '.', '.']
}

/// The text shown for a file: all of it with no limit; else its first `l`
/// lines, followed by the marker when that is shorter than the whole text.
pub open spec fn shown_text(s: Seq<char>, limit: Option<usize>) -> Seq<char> {
    match limit {
        None => s,
        Some(l) => {
            let kept = first_lines(s, l as nat);
            if kept.len() < s.len() {
                kept + truncation_marker()
            } else {
                kept
            }
        },
    }
}

/// The two backslashes and the space that open the header.
pub open spec fn header_open() -> Seq<char> {
    seq!['\\', '\\', ' ']
}

/// What stands between the text and the name in the footer.
pub open spec fn footer_open() -> Seq<char> {
    seq!['\n', '\\', '\\', 'E', 'n', 'd', ' ', 'o', 'f', ' ', 'f', 'i', 'l', 'e', ' ']
}

/// The three newlines after each block.
pub open spec fn block_close() -> Seq<char> {
    seq!['\n', '\n', '\n']
}

/// One file's block: header line, text, footer line, then a blank separator.
pub open spec fn file_block(name: Seq<char>, text: Seq<char>) -> Seq<char> {
    header_open() + name + seq!['\n'] + text + footer_open() + name + block_close()
}

/// The payload for the files `names` whose contents are `texts` (`None` for a
/// file that could not be read, which gives no block), in order.
pub open spec fn payload_spec(names: Seq<Seq<char>>, texts: Seq<Option<Seq<char>>>, limit: Option<usize>) -> Seq<char>
    decreases names.len(),
{
    if names.len() == 0 {
        Seq::empty()
    } else {
        let k = names.len() - 1;
        payload_spec(names.drop_last(), texts.drop_last(), limit) + match texts[k] {
            Some(t) => file_block(names[k], shown_text(t, limit)),
            None => Seq::empty(),
        }
    }
}

/// The characters of each content that was read.
pub open spec fn contents_view(v: Seq<Option<String>>) -> Seq<Option<Seq<char>>> {
    v.map_values(|c: Option<String>| match c {
        Some(s) => Some(s@),
        None => None,
    })
}

/// Keeps the first `limit` lines of `text`, and marks the cut when one was made.
pub fn truncate_lines(text: &str, limit: usize) -> (r: String)
    ensures
        r@ == shown_text(text@, Some(limit)),
{
    let n = text.unicode_len();
    if limit == 0 {
        if n == 0 {
            return String::new();
        }
        let mut r = String::new();
        r.append("\n.....");
        proof {
            reveal_strlit("\n.....");
            assert(r@ =~= Seq::<char>::empty() + truncation_marker());
        }
        return r;
    }
    let mut i: usize = 0;
    let mut remaining: usize = limit;
    assert(text@.skip(0) =~= text@);
    assert(text@.take(0) + first_lines(text@, limit as nat) =~= first_lines(text@, limit as nat));
    while i < n
        invariant
            i <= n,
            n == text@.len(),
            1 <= remaining <= limit,
            first_lines(text@, limit as nat) == text@.take(i as int) + first_lines(
                text@.skip(i as int),
                remaining as nat,
            ),
        decreases n - i,
    {
        let ghost rest = text@.skip(i as int);
        assert(rest[0] == text@[i as int]);
        assert(rest.drop_first() =~= text@.skip(i + 1));
        let c = text.get_char(i);
        if c == '\n' {
            if remaining == 1 {
                assert(first_lines(rest, 1) =~= Seq::<char>::empty());
                assert(first_lines(text@, limit as nat) =~= text@.take(i as int));
                let mut r = text.substring_char(0, i).to_owned();
                r.append("\n.....");
                proof {
                    reveal_strlit("\n.....");
                    assert(r@ =~= text@.take(i as int) + truncation_marker());
                }
                return r;
            }
            assert(text@.take(i + 1) =~= text@.take(i as int) + seq!['\n']);
            remaining = remaining - 1;
        } else {
            assert(text@.take(i + 1) =~= text@.take(i as int) + seq![c]);
        }
        i = i + 1;
    }
    assert(text@.take(n as int) =~= text@);
    assert(first_lines(text@, limit as nat) =~= text@);
    text.to_owned()
}

/// Wraps `text` between the header and the footer for the file `name`.
pub fn wrap_block(name: &str, text: &str) -> (r: String)
    ensures
        r@ == file_block(name@, text@),
{
    let mut r = String::new();
    r.append("\\\\ ");
    r.append(name);
    r.append("\n");
    r.append(text);
    r.append("\n\\\\End of file ");
    r.append(name);
    r.append("\n\n\n");
    proof {
        reveal_strlit("\\\\ ");
        reveal_strlit("\n");
        reveal_strlit("\n\\\\End of file ");
        reveal_strlit("\n\n\n");
        assert(r@ =~= file_block(name@, text@));
    }
    r
}

/// The warning for a file whose content could not be read.
pub open spec fn read_warning_spec(name: Seq<char>, reason: Seq<char>) -> Seq<char> {
    "Warning: unable to open file "@ + name + " => "@ + reason
}

/// The warning printed for a file whose content could not be read; the file
/// gives no block.
pub fn read_warning(name: &str, reason: &str) -> (r: String)
    ensures
        r@ == read_warning_spec(name@, reason@),
{
    let mut r = String::from_str("Warning: unable to open file ");
    r.append(name);
    r.append(" => ");
    r.append(reason);
    r
}

/// Builds the payload from the files in `files.filenames`, whose contents are
/// `contents`, in the same order (`None` for a file that could not be read).
pub fn gen_payload(files: &CatLlmArgs, contents: &Vec<Option<String>>) -> (r: String)
    requires
        contents.len() == files.filenames.len(),
    ensures
        r@ == payload_spec(files@.filenames, contents_view(contents@), files.limit),
{
    let ghost names = files@.filenames;
    let ghost texts = contents_view(contents@);
    let mut payload = String::new();
    let n = files.filenames.len();
    let mut i: usize = 0;
    while i < n
        invariant
            i <= n,
            n == files.filenames.len(),
            n == contents.len(),
            names == files@.filenames,
            texts == contents_view(contents@),
            payload@ == payload_spec(names.take(i as int), texts.take(i as int), files.limit),
        decreases n - i,
    {
        assert(names.take(i + 1).drop_last() =~= names.take(i as int));
        assert(texts.take(i + 1).drop_last() =~= texts.take(i as int));
        assert(names[i as int] == files.filenames@[i as int]@);
        match &contents[i] {
            Some(content) => {
                assert(texts[i as int] == Some(content@));
                let block = match files.limit {
                    Some(lim) => {
                        let cut = truncate_lines(content.as_str(), lim);
                        wrap_block(files.filenames[i].as_str(), cut.as_str())
                    },
                    None => wrap_block(files.filenames[i].as_str(), content.as_str()),
                };
                payload.append(block.as_str());
            },
            None => {
                assert(texts[i as int] == None::<Seq<char>>);
                assert(payload@ =~= payload@ + Seq::<char>::empty());
            },
        }
        i = i + 1;
    }
    assert(names.take(n as int) =~= names);
    assert(texts.take(n as int) =~= texts);
    payload
}

/// Cutting at `n >= 1` lines leaves the whole text when it has at most `n`
/// lines, and something strictly shorter when it has more.
proof fn lemma_first_lines_cut(s: Seq<char>, n: nat)
    requires
        n >= 1,
    ensures
        newline_count(s) < n ==> first_lines(s, n) == s,
        newline_count(s) >= n ==> first_lines(s, n).len() < s.len(),
    decreases s.len(),
{
    if s.len() == 0 {
        assert(first_lines(s, n) =~= s);
    } else {
        let tail = s.drop_first();
        assert(s =~= seq![s[0]] + tail);
        if s[0] == '\n' {
            if n > 1 {
                lemma_first_lines_cut(tail, (n - 1) as nat);
            }
        } else {
            lemma_first_lines_cut(tail, n);
        }
    }
}

/// A text with more than `l` lines is shown as its first `l` lines followed by
/// the marker line of five dots; one with at most `l` lines is shown whole,
/// with no marker. (The empty text under a limit of zero lines is shown as the
/// empty text: it is one empty line, and nothing is cut from it.)
pub proof fn lemma_truncation_marker(s: Seq<char>, l: usize)
    requires
        !(l == 0 && s.len() == 0),
    ensures
        line_count(s) > l ==> shown_text(s, Some(l)) == first_lines(s, l as nat) + truncation_marker(),
        line_count(s) <= l ==> shown_text(s, Some(l)) == s,
{
    if l > 0 {
        lemma_first_lines_cut(s, l as nat);
    }
}

/// Under a limit of zero lines a non-empty text is shown as the marker alone.
pub proof fn lemma_zero_limit_marks_cut(s: Seq<char>)
    requires
        s.len() > 0,
    ensures
        shown_text(s, Some(0)) == truncation_marker(),
{
    assert(first_lines(s, 0) + truncation_marker() =~= truncation_marker());
}

/// With no limit, a file's block holds its content byte for byte.
pub proof fn lemma_unlimited_text_is_verbatim(name: Seq<char>, text: Seq<char>)
    ensures
        shown_text(text, None) == text,
        payload_spec(seq![name], seq![Some(text)], None) == file_block(name, text),
{
    let names = seq![name];
    let texts = seq![Some(text)];
    assert(names.drop_last() =~= Seq::<Seq<char>>::empty());
    assert(texts.drop_last() =~= Seq::<Option<Seq<char>>>::empty());
    assert(names[0] == name);
    assert(texts[0] == Some(text));
    assert(payload_spec(names.drop_last(), texts.drop_last(), None) == Seq::<char>::empty());
    assert(payload_spec(names, texts, None) =~= file_block(name, text));
}

/// Building the payload twice from the same files, contents and options gives
/// the same text.
pub proof fn lemma_payload_repeatable(
    files1: CatLlmArgs,
    contents1: Seq<Option<String>>,
    files2: CatLlmArgs,
    contents2: Seq<Option<String>>,
)
    requires
        files1@ == files2@,
        contents_view(contents1) == contents_view(contents2),
    ensures
        payload_spec(files1@.filenames, contents_view(contents1), files1.limit) == payload_spec(
            files2@.filenames,
            contents_view(contents2),
            files2.limit,
        ),
{
}

} // verus!
