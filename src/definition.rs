use vstd::prelude::*;

use crate::plan::{paths_view, PathText};

verus! {

/// The text of a definition file listing `paths`: each path followed by a
/// line break, in order.
pub open spec fn definition_text(paths: Seq<PathText>) -> Seq<char>
    decreases paths.len(),
{
    if paths.len() == 0 {
        Seq::empty()
    } else {
        definition_text(paths.drop_last()) + paths.last() + seq!['\n']
    }
}

/// Writes the definition file's text for `entries`: one path per line, in order.
pub fn render_definition(entries: &[String]) -> (r: String)
    ensures
        r@ == definition_text(paths_view(entries@)),
{
    let ghost paths = paths_view(entries@);
    let mut text = String::new();
    let mut i: usize = 0;
    while i < entries.len()
        invariant
            paths == paths_view(entries@),
            i <= entries@.len(),
            text@ == definition_text(paths.take(i as int)),
        decreases entries@.len() - i,
    {
        proof {
            reveal_strlit("\n");
            assert(paths.take(i + 1).drop_last() =~= paths.take(i as int));
        }
        text.append(entries[i].as_str());
        text.append("\n");
        i = i + 1;
    }
    assert(paths.take(i as int) =~= paths);
    text
}

/// A line without the carriage return that may end it.
pub open spec fn without_cr(line: Seq<u8>) -> Seq<u8> {
    if line.len() > 0 && line.last() == 0x0Du8 {
        line.drop_last()
    } else {
        line
    }
}

/// Reading the first `i` bytes of `text`: the lines that a line feed has
/// ended, and the bytes of the line begun after them.
pub open spec fn scan_lines(text: Seq<u8>, i: nat) -> (Seq<Seq<u8>>, Seq<u8>)
    decreases i,
{
    if i == 0 {
        (Seq::empty(), Seq::empty())
    } else {
        let (done, current) = scan_lines(text, (i - 1) as nat);
        if text[i - 1] == 0x0Au8 {
            (done.push(without_cr(current)), Seq::empty())
        } else {
            (done, current.push(text[i - 1]))
        }
    }
}

/// The lines of `text`: split at each line feed, each without a trailing
/// carriage return; a last line that no line feed ends counts, as it
/// stands, when it is not empty. An empty line between two line feeds is kept, as an empty path.
pub open spec fn lines_of(text: Seq<u8>) -> Seq<Seq<u8>> {
    let (done, current) = scan_lines(text, text.len());
    if current.len() > 0 {
        done.push(current)
    } else {
        done
    }
}

/// The bytes of each line.
pub open spec fn lines_view(lines: Seq<Vec<u8>>) -> Seq<Seq<u8>> {
    lines.map_values(|l: Vec<u8>| l@)
}

/// Drops a carriage return that ends `line`.
fn trim_cr(line: &mut Vec<u8>)
    ensures
        final(line)@ == without_cr(old(line)@),
{
    let n = line.len();
    if n > 0 && line[n - 1] == 0x0Du8 {
        line.pop();
    }
}

/// Reads a definition file's bytes back into its lines, one entry per line.
pub fn parse_definition(text: &[u8]) -> (r: Vec<Vec<u8>>)
    ensures
        lines_view(r@) == lines_of(text@),
{
    let mut done: Vec<Vec<u8>> = Vec::new();
    let mut current: Vec<u8> = Vec::new();
    let mut i: usize = 0;
    while i < text.len()
        invariant
            i <= text@.len(),
            (lines_view(done@), current@) == scan_lines(text@, i as nat),
        decreases text@.len() - i,
    {
        let b = text[i];
        if b == 0x0Au8 {
            let mut line = current;
            trim_cr(&mut line);
            let ghost before = done@;
            done.push(line);
            assert(lines_view(done@) =~= lines_view(before).push(line@));
            current = Vec::new();
        } else {
            current.push(b);
        }
        i = i + 1;
    }
    assert(text@.len() == i);
    if current.len() > 0 {
        let ghost before = done@;
        done.push(current);
        assert(lines_view(done@) =~= lines_view(before).push(current@));
    }
    done
}

} // verus!
