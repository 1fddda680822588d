//! A log that is collected in memory and written out block by block.

use vstd::prelude::*;
use vstd::string::StringExecFns;

verus! {

/// How a block is written to a file that exists already.
#[derive(Clone, Copy, Debug, PartialEq, Eq, Structural)]
pub enum Mode {
    /// After what the file holds.
    Append,
    /// In place of what the file holds.
    Overwrite,
}

impl Mode {
    /// Whether the file keeps what it holds.
    pub fn appends(&self) -> (keeps: bool)
        ensures
            keeps == (*self == Mode::Append),
    {
        match self {
            Mode::Append => true,
            Mode::Overwrite => false,
        }
    }
}

/// The text of `lines`, each closed by a line feed.
pub open spec fn lines_text(lines: Seq<Seq<char>>) -> Seq<char>
    decreases lines.len(),
{
    if lines.len() == 0 {
        Seq::empty()
    } else {
        lines_text(lines.drop_last()) + lines.last() + seq!['\n']
    }
}

/// The block that is written for a log: the time stamp, the header, the
/// pending lines and an empty line, each on a line of its own.
pub open spec fn block_text(stamp: Seq<char>, header: Seq<char>, pending: Seq<Seq<char>>) -> Seq<
    char,
> {
    lines_text(seq![stamp, header] + pending + seq![Seq::empty()])
}

/// What each of `lines` holds.
spec fn texts(lines: Seq<String>) -> Seq<Seq<char>> {
    lines.map_values(|line: String| line@)
}

/// A log: a header, and the lines that were added since the last block was
/// written.
pub trait Log: Sized {
    /// The header that opens every block.
    spec fn header(&self) -> Seq<char>;

    /// The lines that wait to be written, oldest first.
    spec fn pending(&self) -> Seq<Seq<char>>;

    /// A log with the given header and no lines.
    fn new(kopferino: &str) -> (log: Self)
        ensures
            log.header() == kopferino@,
            log.pending() == Seq::<Seq<char>>::empty(),
    ;

    /// Appends a line.
    fn add(&mut self, message: &str)
        ensures
            final(self).header() == old(self).header(),
            final(self).pending() == old(self).pending().push(message@),
    ;

    /// Drops the lines that wait to be written.
    fn clear(&mut self)
        ensures
            final(self).header() == old(self).header(),
            final(self).pending() == Seq::<Seq<char>>::empty(),
    ;

    /// The block to write at the time that `stamp` names.
    fn render(&self, stamp: &str) -> (text: String)
        ensures
            text@ == block_text(stamp@, self.header(), self.pending()),
    ;
}

/// The log of this library.
pub struct Logger {
    buffer: Vec<String>,
    kopfer: String,
}

/// Calls `chrono::offset::Local::now` and formats the moment as year, month
/// and day, hour, minute and second, and the offset of the local time zone.
/// The text depends on the clock and the time zone of the machine: nothing is
/// claimed of it.
#[verifier::external_body]
fn local_stamp() -> (stamp: String) {
    chrono::offset::Local::now().format("%Y-%m-%d %H:%M:%S %z").to_string()
}

impl Log for Logger {
    closed spec fn header(&self) -> Seq<char> {
        self.kopfer@
    }

    closed spec fn pending(&self) -> Seq<Seq<char>> {
        texts(self.buffer@)
    }

    fn new(kopferino: &str) -> (log: Logger) {
        let log = Logger { buffer: Vec::new(), kopfer: kopferino.to_owned() };
        assert(log.pending() =~= Seq::<Seq<char>>::empty());
        log
    }

    fn add(&mut self, message: &str) {
        self.buffer.push(message.to_owned());
        assert(self.pending() =~= old(self).pending().push(message@));
    }

    fn clear(&mut self) {
        self.buffer.clear();
        assert(self.pending() =~= Seq::<Seq<char>>::empty());
    }

    fn render(&self, stamp: &str) -> (text: String) {
        let mut text = String::new();
        text.append(stamp);
        text.append("\n");
        text.append(self.kopfer.as_str());
        text.append("\n");
        proof {
            reveal_strlit("\n");
            lemma_lines_text_two(stamp@, self.kopfer@);
        }
        let ghost opening = seq![stamp@, self.kopfer@];
        let mut i: usize = 0;
        while i < self.buffer.len()
            invariant
                i <= self.buffer.len(),
                opening == seq![stamp@, self.kopfer@],
                text@ == lines_text(opening + self.pending().take(i as int)),
            decreases self.buffer.len() - i,
        {
            proof {
                reveal_strlit("\n");
                let done = opening + self.pending().take(i as int);
                let more = opening + self.pending().take(i + 1);
                assert(more.drop_last() =~= done);
                assert(more.last() == self.buffer@[i as int]@);
            }
            text.append(self.buffer[i].as_str());
            text.append("\n");
            i += 1;
        }
        proof {
            reveal_strlit("\n");
            let done = opening + self.pending();
            let all = opening + self.pending() + seq![Seq::<char>::empty()];
            assert(self.pending().take(i as int) =~= self.pending());
            assert(all.drop_last() =~= done);
            assert(all.last() == Seq::<char>::empty());
            assert(lines_text(all) =~= lines_text(done) + seq!['\n']);
        }
        text.append("\n");
        text
    }
}

/// The text of two lines.
proof fn lemma_lines_text_two(first: Seq<char>, second: Seq<char>)
    ensures
        lines_text(seq![first, second]) == first + seq!['\n'] + second + seq!['\n'],
{
    let two = seq![first, second];
    assert(two.drop_last() =~= seq![first]);
    assert(seq![first].drop_last() =~= Seq::<Seq<char>>::empty());
    reveal_with_fuel(lines_text, 3);
    assert(lines_text(seq![first]) =~= first + seq!['\n']);
    assert(lines_text(two) =~= first + seq!['\n'] + second + seq!['\n']);
}

impl Logger {
    /// The block to write now: the one that `render` gives for the present
    /// moment, as the clock and the time zone of this machine have it.
    pub fn entry(&self) -> (text: String)
        ensures
            exists|stamp: Seq<char>| text@ == #[trigger] block_text(
                stamp,
                self.header(),
                self.pending(),
            ),
    {
        let stamp = local_stamp();
        self.render(stamp.as_str())
    }

    /// The number of lines that wait to be written.
    pub fn len(&self) -> (n: usize)
        ensures
            n == self.pending().len(),
    {
        self.buffer.len()
    }
}

} // verus!
