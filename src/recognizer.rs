//! Reading the reward name of one screen region. OCR runs outside the
//! library; the recognizer says which window to read next and decides from
//! each reading, first over fixed windows of three and two lines, then over
//! a window that grows upward one line at a time.

use vstd::prelude::*;

use crate::catalog::{matched_item, matches_of, match_item_chars, Catalog, Item};
use crate::text::{chars_of, clean_chars, cleaned, replace_all, replace_chars, trim, trim_chars};

verus! {

/// A rectangle of the frame to read, in pixels.
#[derive(Debug, Clone, Copy, PartialEq, Eq, Structural)]
pub struct CropRect {
    pub x: u32,
    pub y: u32,
    pub width: u32,
    pub height: u32,
}

/// Which window a recognizer reads.
#[derive(Debug, Clone, Copy, PartialEq, Eq, Structural)]
pub enum Phase {
    /// A window of `lines` lines that ends at the baseline.
    Fixed { lines: u32 },
    /// The single line `line` lines above the baseline.
    Growing { line: u32 },
}

/// What a recognizer asks for next.
#[derive(Debug, Clone, PartialEq, Eq)]
pub enum RecognizerStep {
    /// Read the text in this rectangle and feed the result back.
    Ocr(CropRect),
    /// The region is settled: the item it names, if one was recognized.
    Done(Option<Item>),
}

/// The state of the recognition of one region.
#[derive(Debug, Clone)]
pub struct RegionRecognizer {
    pub x: u32,
    pub frame_width: u32,
    pub frame_bottom: u32,
    pub text_height: u32,
    pub phase: Phase,
    /// The lines read so far by the growing window, top line first.
    pub buffer: Vec<char>,
}

/// The text of a fixed window: line breaks become spaces, then cleanup.
pub open spec fn fixed_window_text(raw: Seq<char>) -> Seq<char> {
    cleaned(replace_all(trim(raw), seq!['\n'], seq![' ']))
}

/// Whether the growing window can reach line `line` without passing the top
/// of the frame.
pub open spec fn can_grow(text_height: u32, frame_bottom: u32, line: int) -> bool {
    text_height > 0 && line >= 1 && text_height * line <= frame_bottom
}

/// What one OCR reading does: `Ok` with the next phase and buffer, or `Err`
/// with the recognized item when the region is settled. A failed reading
/// settles the region with no item.
pub open spec fn transition(
    phase: Phase,
    buffer: Seq<char>,
    text_height: u32,
    frame_bottom: u32,
    reading: Option<Seq<char>>,
    items: Seq<Item>,
) -> Result<(Phase, Seq<char>), Option<Item>> {
    match reading {
        None => Err(None),
        Some(raw) => match phase {
            Phase::Fixed { lines } => {
                let m = matched_item(items, fixed_window_text(raw));
                if m is Some {
                    Err(m)
                } else if lines == 3 {
                    Ok((Phase::Fixed { lines: 2 }, buffer))
                } else if can_grow(text_height, frame_bottom, 1) {
                    Ok((Phase::Growing { line: 1 }, Seq::empty()))
                } else {
                    Err(matched_item(items, cleaned(Seq::empty())))
                }
            },
            Phase::Growing { line } => {
                let piece = trim(raw);
                if piece.len() == 0 {
                    Err(matched_item(items, cleaned(buffer)))
                } else if can_grow(text_height, frame_bottom, line + 1) {
                    Ok((Phase::Growing { line: (line + 1) as u32 }, piece + buffer))
                } else {
                    Err(matched_item(items, cleaned(piece + buffer)))
                }
            },
        },
    }
}

/// The characters of an OCR reading, if there is one.
pub open spec fn reading_view(reading: Option<String>) -> Option<Seq<char>> {
    match reading {
        Some(s) => Some(s@),
        None => None,
    }
}

impl RegionRecognizer {
    /// Windows stay inside the frame: three lines fit above the baseline,
    /// and a growing window only reaches lines that fit.
    pub open spec fn wf(&self) -> bool {
        &&& self.text_height * 3 <= self.frame_bottom
        &&& match self.phase {
            Phase::Fixed { lines } => lines == 2 || lines == 3,
            Phase::Growing { line } => can_grow(self.text_height, self.frame_bottom, line as int),
        }
    }

    /// The rectangle that the current phase reads.
    pub open spec fn window_spec(&self) -> CropRect {
        match self.phase {
            Phase::Fixed { lines } => CropRect {
                x: self.x,
                y: (self.frame_bottom - self.text_height * lines) as u32,
                width: self.frame_width,
                height: (self.text_height * lines) as u32,
            },
            Phase::Growing { line } => CropRect {
                x: self.x,
                y: (self.frame_bottom - self.text_height * line) as u32,
                width: self.frame_width,
                height: self.text_height,
            },
        }
    }

    /// The recognizer of the region at `x`, starting with a three-line window.
    pub fn new(x: u32, frame_width: u32, frame_bottom: u32, text_height: u32) -> (r:
        RegionRecognizer)
        requires
            text_height * 3 <= frame_bottom,
        ensures
            r.wf(),
            r.x == x,
            r.frame_width == frame_width,
            r.frame_bottom == frame_bottom,
            r.text_height == text_height,
            r.phase == (Phase::Fixed { lines: 3 }),
            r.buffer@ == Seq::<char>::empty(),
    {
        RegionRecognizer {
            x,
            frame_width,
            frame_bottom,
            text_height,
            phase: Phase::Fixed { lines: 3 },
            buffer: Vec::new(),
        }
    }

    /// The rectangle to read next.
    pub fn window(&self) -> (r: CropRect)
        requires
            self.wf(),
        ensures
            r == self.window_spec(),
    {
        match self.phase {
            Phase::Fixed { lines } => CropRect {
                x: self.x,
                y: self.frame_bottom - self.text_height * lines,
                width: self.frame_width,
                height: self.text_height * lines,
            },
            Phase::Growing { line } => CropRect {
                x: self.x,
                y: self.frame_bottom - self.text_height * line,
                width: self.frame_width,
                height: self.text_height,
            },
        }
    }

    /// Takes the OCR reading of the current window (`None` when OCR failed)
    /// and says what to read next, or which item the region shows.
    pub fn feed(&mut self, reading: Option<String>, catalog: &Catalog) -> (r: RecognizerStep)
        requires
            old(self).wf(),
        ensures
            final(self).x == old(self).x,
            final(self).frame_width == old(self).frame_width,
            final(self).frame_bottom == old(self).frame_bottom,
            final(self).text_height == old(self).text_height,
            match transition(
                old(self).phase,
                old(self).buffer@,
                old(self).text_height,
                old(self).frame_bottom,
                reading_view(reading),
                catalog.item_seq(),
            ) {
                Ok((p, b)) => {
                    &&& final(self).phase == p
                    &&& final(self).buffer@ == b
                    &&& final(self).wf()
                    &&& r == RecognizerStep::Ocr(final(self).window_spec())
                },
                Err(m) => r == RecognizerStep::Done(m),
            },
    {
        let raw = match reading {
            Some(s) => chars_of(s.as_str()),
            None => {
                return RecognizerStep::Done(None);
            },
        };
        match self.phase {
            Phase::Fixed { lines } => {
                let t = trim_chars(&raw);
                let nl = vec!['\n'];
                let sp = vec![' '];
                assert(nl@ =~= seq!['\n']);
                assert(sp@ =~= seq![' ']);
                let joined = replace_chars(&t, &nl, &sp);
                let text = clean_chars(&joined);
                let m = match_item_chars(catalog.items(), &text);
                if m.is_some() {
                    RecognizerStep::Done(m)
                } else if lines == 3 {
                    self.phase = Phase::Fixed { lines: 2 };
                    RecognizerStep::Ocr(self.window())
                } else if self.text_height > 0 && self.text_height <= self.frame_bottom {
                    self.phase = Phase::Growing { line: 1 };
                    self.buffer = Vec::new();
                    RecognizerStep::Ocr(self.window())
                } else {
                    let empty: Vec<char> = Vec::new();
                    let text = clean_chars(&empty);
                    RecognizerStep::Done(match_item_chars(catalog.items(), &text))
                }
            },
            Phase::Growing { line } => {
                let piece = trim_chars(&raw);
                if piece.len() == 0 {
                    let text = clean_chars(&self.buffer);
                    return RecognizerStep::Done(match_item_chars(catalog.items(), &text));
                }
                let mut joined = piece;
                let mut k: usize = 0;
                let ghost head = joined@;
                while k < self.buffer.len()
                    invariant
                        k <= self.buffer@.len(),
                        joined@ == head + self.buffer@.take(k as int),
                    decreases self.buffer@.len() - k,
                {
                    joined.push(self.buffer[k]);
                    k = k + 1;
                    assert(joined@ =~= head + self.buffer@.take(k as int));
                }
                assert(self.buffer@.take(k as int) =~= self.buffer@);
                let th = self.text_height as u64;
                let next = line as u64 + 1;
                assert(th * next <= 0xffff_ffff * 0x1_0000_0000) by (nonlinear_arith)
                    requires
                        th <= 0xffff_ffff,
                        next <= 0x1_0000_0000,
                ;
                if th * next <= self.frame_bottom as u64 {
                    assert(next <= self.frame_bottom) by (nonlinear_arith)
                        requires
                            th >= 1,
                            th * next <= self.frame_bottom,
                    ;
                    self.phase = Phase::Growing { line: next as u32 };
                    self.buffer = joined;
                    RecognizerStep::Ocr(self.window())
                } else {
                    let text = clean_chars(&joined);
                    RecognizerStep::Done(match_item_chars(catalog.items(), &text))
                }
            },
        }
    }
}

/// How many more readings a phase can ask for at most: the lines that fit
/// above the baseline, plus the fixed windows still to try.
pub open spec fn readings_left(phase: Phase, text_height: u32, frame_bottom: u32) -> int {
    let lines = if text_height == 0 {
        0
    } else {
        frame_bottom as int / text_height as int
    };
    match phase {
        Phase::Fixed { lines: n } => if n == 3 {
            lines + 2
        } else {
            lines + 1
        },
        Phase::Growing { line } => lines - line,
    }
}

/// Every reading either settles the region or moves to a phase with fewer
/// readings left, which never drops below zero: recognition of a region
/// always ends, after at most `frame_bottom / text_height + 3` readings.
pub proof fn lemma_recognition_progress(
    phase: Phase,
    buffer: Seq<char>,
    text_height: u32,
    frame_bottom: u32,
    reading: Option<Seq<char>>,
    items: Seq<Item>,
)
    requires
        match phase {
            Phase::Fixed { lines } => lines == 2 || lines == 3,
            Phase::Growing { line } => can_grow(text_height, frame_bottom, line as int),
        },
    ensures
        readings_left(phase, text_height, frame_bottom) >= 0,
        match transition(phase, buffer, text_height, frame_bottom, reading, items) {
            Ok((next, _)) => 0 <= readings_left(next, text_height, frame_bottom) < readings_left(
                phase,
                text_height,
                frame_bottom,
            ),
            Err(_) => true,
        },
{
    let th = text_height as int;
    let fb = frame_bottom as int;
    if th > 0 {
        assert(fb / th >= 0) by (nonlinear_arith)
            requires
                th > 0,
                fb >= 0,
        ;
    }
    match phase {
        Phase::Growing { line } => {
            let l = line as int;
            assert(l <= fb / th) by (nonlinear_arith)
                requires
                    th > 0,
                    th * l <= fb,
            ;
            if can_grow(text_height, frame_bottom, l + 1) {
                assert(l + 1 <= fb / th) by (nonlinear_arith)
                    requires
                        th > 0,
                        th * (l + 1) <= fb,
                ;
            }
        },
        Phase::Fixed { .. } => {
            if can_grow(text_height, frame_bottom, 1) {
                assert(1 <= fb / th) by (nonlinear_arith)
                    requires
                        th > 0,
                        th * 1 <= fb,
                ;
            }
        },
    }
}

/// The texts a reading can settle a region on: the fixed window's text, the
/// grown buffer before or after this reading, or nothing at all.
pub open spec fn candidate_text(t: Seq<char>, buffer: Seq<char>, raw: Seq<char>) -> bool {
    ||| t == fixed_window_text(raw)
    ||| t == cleaned(buffer)
    ||| t == cleaned(trim(raw) + buffer)
    ||| t == cleaned(Seq::empty())
}

/// A region never settles on a best guess: when a reading settles it on an
/// item, one of that reading's candidate texts names exactly that catalog
/// item and no other. So when no candidate text names exactly one item (it
/// names none, or two or more), the region settles on no item.
pub proof fn lemma_region_match_is_unique(
    phase: Phase,
    buffer: Seq<char>,
    text_height: u32,
    frame_bottom: u32,
    raw: Seq<char>,
    items: Seq<Item>,
)
    ensures
        match transition(phase, buffer, text_height, frame_bottom, Some(raw), items) {
            Err(Some(it)) => exists|t: Seq<char>|
                candidate_text(t, buffer, raw) && #[trigger] matches_of(items, t) == seq![it],
            _ => true,
        },
        (forall|t: Seq<char>| candidate_text(t, buffer, raw) ==> #[trigger] matches_of(items, t).len() != 1)
            ==> !(transition(phase, buffer, text_height, frame_bottom, Some(raw), items) matches Err(
            Some(_),
        )),
{
    let r = transition(phase, buffer, text_height, frame_bottom, Some(raw), items);
    let t = match phase {
        Phase::Fixed { lines } => if matched_item(items, fixed_window_text(raw)) is Some {
            fixed_window_text(raw)
        } else {
            cleaned(Seq::<char>::empty())
        },
        Phase::Growing { line } => if trim(raw).len() == 0 {
            cleaned(buffer)
        } else {
            cleaned(trim(raw) + buffer)
        },
    };
    match r {
        Err(Some(it)) => {
            assert(candidate_text(t, buffer, raw));
            assert(matched_item(items, t) == Some(it));
            assert(matches_of(items, t) =~= seq![it]);
        },
        _ => {},
    }
}

} // verus!
