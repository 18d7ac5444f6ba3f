//! The shared buffer a streaming view reads while a producer fills it.
//!
//! A producer appends whole batches and finally marks the buffer loaded; the
//! interface thread reads single lines by index and polls the flag. The
//! producer's loop and the lock around the buffer live with the caller; the
//! buffer itself guarantees that lines only ever gain and that `loaded`
//! moves from `false` to `true` at most once.

use vstd::prelude::*;
use vstd::string::StringExecFns;

use crate::text::{chars_to_string, replace_chars, replace_spec, str_to_chars};

verus! {

/// A growing sequence of lines and a completion flag.
#[derive(Debug)]
pub struct StreamBuffer {
    pub lines: Vec<String>,
    pub loaded: bool,
}

/// Mathematical model of a [`StreamBuffer`].
pub struct StreamBufferV {
    pub lines: Seq<Seq<char>>,
    pub loaded: bool,
}

impl View for StreamBuffer {
    type V = StreamBufferV;

    open spec fn view(&self) -> StreamBufferV {
        StreamBufferV { lines: self.lines@.map_values(|s: String| s@), loaded: self.loaded }
    }
}

/// One step of a producer: a batch of lines arrives, or the source ends.
pub enum LoaderStep {
    Append(Seq<Seq<char>>),
    Finish,
}

/// What one producer step does to the buffer model.
pub open spec fn loader_step(b: StreamBufferV, step: LoaderStep) -> StreamBufferV {
    match step {
        LoaderStep::Append(batch) => StreamBufferV { lines: b.lines + batch, loaded: b.loaded },
        LoaderStep::Finish => StreamBufferV { lines: b.lines, loaded: true },
    }
}

/// What a whole run of producer steps does to the buffer model.
pub open spec fn loader_run(b: StreamBufferV, steps: Seq<LoaderStep>) -> StreamBufferV
    decreases steps.len(),
{
    if steps.len() == 0 {
        b
    } else {
        loader_run(loader_step(b, steps[0]), steps.skip(1))
    }
}

/// The loader monotonicity law: across any number of producer steps, the
/// lines already in the buffer stay where they are (so the length never
/// decreases), and `loaded` never falls back from `true` to `false`.
pub proof fn lemma_loader_monotone(b: StreamBufferV, steps: Seq<LoaderStep>)
    ensures
        loader_run(b, steps).lines.len() >= b.lines.len(),
        loader_run(b, steps).lines.take(b.lines.len() as int) == b.lines,
        b.loaded ==> loader_run(b, steps).loaded,
    decreases steps.len(),
{
    if steps.len() == 0 {
        assert(loader_run(b, steps).lines.take(b.lines.len() as int) =~= b.lines);
    } else {
        let b1 = loader_step(b, steps[0]);
        lemma_loader_monotone(b1, steps.skip(1));
        assert(b1.lines.take(b.lines.len() as int) =~= b.lines);
        let out = loader_run(b, steps);
        assert(out == loader_run(b1, steps.skip(1)));
        assert(out.lines.take(b.lines.len() as int) =~= out.lines.take(
            b1.lines.len() as int,
        ).take(b.lines.len() as int));
        assert(out.lines.take(b.lines.len() as int) =~= b.lines);
    }
}

impl StreamBuffer {
    /// A buffer holding the first line of the stream, not yet loaded.
    pub fn starting(first_line: String) -> (r: StreamBuffer)
        ensures
            r@.lines == seq![first_line@],
            r@.loaded == false,
    {
        let mut lines: Vec<String> = Vec::new();
        lines.push(first_line);
        let r = StreamBuffer { lines, loaded: false };
        proof {
            assert(r@.lines =~= seq![r.lines@[0]@]);
        }
        r
    }

    /// Append one producer batch. Lines only ever gain.
    pub fn append_batch(&mut self, batch: Vec<String>)
        ensures
            final(self)@ == loader_step(old(self)@, LoaderStep::Append(
                batch@.map_values(|s: String| s@),
            )),
            final(self)@.lines.len() >= old(self)@.lines.len(),
            final(self)@.loaded == old(self)@.loaded,
    {
        let ghost bv = batch@.map_values(|s: String| s@);
        let mut batch = batch;
        self.lines.append(&mut batch);
        proof {
            assert(self@.lines =~= old(self)@.lines + bv);
        }
    }

    /// The source is exhausted: mark the buffer loaded.
    pub fn finish(&mut self)
        ensures
            final(self)@ == loader_step(old(self)@, LoaderStep::Finish),
            final(self)@.lines == old(self)@.lines,
            final(self)@.loaded == true,
    {
        self.loaded = true;
        assert(self@.lines =~= loader_step(old(self)@, LoaderStep::Finish).lines);
    }

    /// The line at `idx`, when it has arrived.
    pub fn get_line(&self, idx: usize) -> (r: Option<&String>)
        ensures
            match r {
                Some(line) => idx < self@.lines.len() && line@ == self@.lines[idx as int],
                None => idx >= self@.lines.len(),
            },
    {
        if idx < self.lines.len() {
            let line = &self.lines[idx];
            assert(self@.lines[idx as int] == self.lines@[idx as int]@);
            Some(line)
        } else {
            None
        }
    }

    /// Whether the producer has finished.
    pub fn is_fully_loaded(&self) -> (r: bool)
        ensures
            r == self@.loaded,
    {
        self.loaded
    }

    /// How many lines have arrived.
    pub fn len(&self) -> (r: usize)
        ensures
            r == self@.lines.len(),
    {
        self.lines.len()
    }
}

/// Tabs become four spaces and carriage returns a visible `^M`, so a line
/// renders with a predictable width.
pub fn clean_buggy_characters(line: &str) -> (r: String)
    ensures
        r@ == replace_spec(replace_spec(line@, "\t"@, "    "@), "\r"@, "^M"@),
{
    let v = str_to_chars(line);
    proof {
        reveal_strlit("\t");
        reveal_strlit("\r");
    }
    let v1 = replace_chars(&v, "\t", "    ");
    let v2 = replace_chars(&v1, "\r", "^M");
    chars_to_string(&v2)
}

/// The line shown in place of one that could not be decoded, so one bad
/// line does not lose the rest of the stream.
pub fn unreadable_line_marker() -> (r: String)
    ensures
        r@ == "\u{1b}[31m/!\\ *** ERROR *** /!\\: the pager could not read that line\u{1b}[0m"@,
{
    String::from_str("\u{1b}[31m/!\\ *** ERROR *** /!\\: the pager could not read that line\u{1b}[0m")
}

} // verus!
