//! The bookkeeping behind drag and drop: which drag is live, what each
//! watcher is told about it, and which MIME type is asked for or accepted.
//!
//! The Wayland traffic itself (data devices, offers, pipes) stays with the
//! caller, which reports each protocol event here and acts on the answer.

use crate::text::{str_eq, string_views};
use vstd::prelude::*;

verus! {

/// The MIME types a drag has to advertise for its payload to be file paths,
/// in order of decreasing preference.
pub const FILE_MIMES: [&'static str; 2] = ["x-special/gnome-copied-files", "text/uri-list"];

/// Whether `mime` is one of [`FILE_MIMES`].
pub open spec fn is_file_mime_spec(mime: Seq<char>) -> bool {
    mime == "x-special/gnome-copied-files"@ || mime == "text/uri-list"@
}

/// Whether `mime` names a file list.
pub fn is_file_mime(mime: &str) -> (r: bool)
    ensures
        r == is_file_mime_spec(mime@),
{
    str_eq(mime, "x-special/gnome-copied-files") || str_eq(mime, "text/uri-list")
}

/// What a watcher needs to know about a live drag. `P` is the pointer
/// position, in the caller's coordinates.
#[derive(Clone, Copy, Debug, Default, PartialEq)]
pub struct Drag<P> {
    /// Where the pointer is, or `None` while the drag is outside our surfaces.
    pub position: Option<P>,
    /// The compositor reported the drop.
    pub dropped: bool,
    /// The drag has ended: it was dropped, cancelled or left for good.
    pub ended: bool,
    /// Bumped on every change, so a watcher can tell "nothing happened" from
    /// "moved back to where it was".
    pub generation: u64,
    /// The payload on offer is a file list.
    pub files: bool,
}

/// The generation after `g`, wrapping at the end of the range.
pub open spec fn next_generation(g: u64) -> u64 {
    if g == u64::MAX {
        0
    } else {
        (g + 1) as u64
    }
}

/// `d` with its generation moved on by one.
pub open spec fn bumped<P>(d: Drag<P>) -> Drag<P> {
    Drag { generation: next_generation(d.generation), ..d }
}

/// The drag state shared between the widgets that watch drags and the
/// protocol events that move them.
pub struct DragState<P> {
    /// The latest drag, live or ended; `None` before the first.
    pub drag: Option<Drag<P>>,
    /// The MIME types of the drag this app started, empty when the drag in
    /// flight is somebody else's.
    pub offered: Vec<String>,
    /// Whether our pointer reports a button held down.
    pub button_pressed: bool,
}

/// Whether `d` describes a drag in flight.
pub open spec fn is_live<P>(d: Option<Drag<P>>) -> bool {
    d matches Some(drag) && !drag.ended
}

/// A fresh drag carrying `files` or not, after `previous`: its generation
/// carries on from the drag it replaces.
pub open spec fn fresh_drag<P>(previous: Option<Drag<P>>, files: bool) -> Drag<P> {
    Drag {
        position: None,
        dropped: false,
        ended: false,
        generation: match previous {
            Some(d) => next_generation(d.generation),
            None => 0,
        },
        files,
    }
}

impl<P: Copy> DragState<P> {
    /// No drag, nothing offered, no button held.
    pub fn new() -> (r: Self)
        ensures
            r.drag is None,
            r.offered@.len() == 0,
            !r.button_pressed,
    {
        DragState { drag: None, offered: Vec::new(), button_pressed: false }
    }

    /// Whether a drag is in flight, as opposed to none at all or one that has
    /// ended and is only kept readable.
    pub fn drag_is_live(&self) -> (r: bool)
        ensures
            r == is_live(self.drag),
    {
        match self.drag {
            Some(drag) => !drag.ended,
            None => false,
        }
    }

    /// Start tracking a new drag carrying `files` or not.
    pub fn begin_drag(&mut self, files: bool)
        ensures
            final(self).drag == Some(fresh_drag(old(self).drag, files)),
            final(self).offered == old(self).offered,
            final(self).button_pressed == old(self).button_pressed,
    {
        let generation = match self.drag {
            Some(drag) => drag.generation.wrapping_add(1),
            None => 0,
        };
        self.drag = Some(Drag { position: None, dropped: false, ended: false, generation, files });
    }

    /// Move the generation of the current drag on, after a change to it.
    fn bump(&mut self)
        ensures
            final(self).drag == match old(self).drag {
                Some(d) => Some(bumped(d)),
                None => None,
            },
            final(self).offered == old(self).offered,
            final(self).button_pressed == old(self).button_pressed,
    {
        if let Some(drag) = self.drag {
            self.drag = Some(Drag { generation: drag.generation.wrapping_add(1), ..drag });
        }
    }

    /// A drag came over one of our surfaces at `position`; `files` says
    /// whether its offer is a file list. A drag from another client is only
    /// ever heard of here, so one is started unless a drag is already live.
    pub fn enter(&mut self, files: bool, position: P)
        ensures
            final(self).drag == Some(
                bumped(
                    Drag {
                        position: Some(position),
                        files,
                        ..if is_live(old(self).drag) {
                            old(self).drag.unwrap()
                        } else {
                            fresh_drag(old(self).drag, files)
                        }
                    },
                ),
            ),
            final(self).offered == old(self).offered,
            final(self).button_pressed == old(self).button_pressed,
    {
        if !self.drag_is_live() {
            self.begin_drag(files);
        }
        if let Some(drag) = self.drag {
            self.drag = Some(Drag { position: Some(position), files, ..drag });
        }
        self.bump();
    }

    /// The pointer moved to `position` during the drag.
    pub fn motion(&mut self, position: P)
        ensures
            final(self).drag == match old(self).drag {
                Some(d) => Some(bumped(Drag { position: Some(position), ..d })),
                None => None,
            },
            final(self).offered == old(self).offered,
            final(self).button_pressed == old(self).button_pressed,
    {
        if let Some(drag) = self.drag {
            self.drag = Some(Drag { position: Some(position), ..drag });
        }
        self.bump();
    }

    /// The drag left our surfaces. A drag of our own may come back; one from
    /// another client has no source here to end it, so leaving ends it. An
    /// ended drag keeps its last position, which a drop is computed from.
    /// Returns whether the drag has ended.
    pub fn leave(&mut self) -> (ended: bool)
        ensures
            final(self).drag == match old(self).drag {
                Some(d) => Some(
                    bumped(
                        if d.ended {
                            d
                        } else {
                            Drag { position: None, ended: old(self).offered@.len() == 0, ..d }
                        },
                    ),
                ),
                None => None,
            },
            ended == (final(self).drag matches Some(d) && d.ended),
            final(self).offered == old(self).offered,
            final(self).button_pressed == old(self).button_pressed,
    {
        let foreign = self.offered.len() == 0;
        if let Some(drag) = self.drag {
            if !drag.ended {
                self.drag = Some(Drag { position: None, ended: foreign, ..drag });
            }
        }
        self.bump();
        match self.drag {
            Some(drag) => drag.ended,
            None => false,
        }
    }

    /// The drag was dropped on one of our surfaces.
    pub fn dropped(&mut self)
        ensures
            final(self).drag == match old(self).drag {
                Some(d) => Some(bumped(Drag { dropped: true, ended: true, ..d })),
                None => None,
            },
            final(self).offered == old(self).offered,
            final(self).button_pressed == old(self).button_pressed,
    {
        if let Some(drag) = self.drag {
            self.drag = Some(Drag { dropped: true, ended: true, ..drag });
        }
        self.bump();
    }

    /// The compositor is done with the source of our drag: it was cancelled
    /// or the destination finished with it.
    pub fn source_finished(&mut self)
        ensures
            final(self).drag == match old(self).drag {
                Some(d) => Some(bumped(Drag { ended: true, ..d })),
                None => None,
            },
            final(self).offered == old(self).offered,
            final(self).button_pressed == old(self).button_pressed,
    {
        if let Some(drag) = self.drag {
            self.drag = Some(Drag { ended: true, ..drag });
        }
        self.bump();
    }

    /// Our pointer reported a button pressed or released.
    pub fn set_button_pressed(&mut self, pressed: bool)
        ensures
            final(self).drag == old(self).drag,
            final(self).offered == old(self).offered,
            final(self).button_pressed == pressed,
    {
        self.button_pressed = pressed;
    }

    /// Whether a drag offering `mimes` may start: none is live and there is
    /// something to offer.
    pub fn may_start_drag(&self, mimes: &Vec<String>) -> (r: bool)
        ensures
            r == (!is_live(self.drag) && mimes@.len() > 0),
    {
        !self.drag_is_live() && mimes.len() > 0
    }

    /// A drag of our own offering `mimes` has started.
    pub fn started_drag(&mut self, mimes: Vec<String>)
        ensures
            final(self).offered@ == mimes@,
            final(self).drag == Some(
                fresh_drag(
                    old(self).drag,
                    exists|i: int| 0 <= i < mimes@.len() && is_file_mime_spec(mimes@[i]@),
                ),
            ),
            final(self).button_pressed == old(self).button_pressed,
    {
        let mut files = false;
        let mut i: usize = 0;
        while i < mimes.len()
            invariant
                i <= mimes@.len(),
                files == exists|j: int| 0 <= j < i && is_file_mime_spec(mimes@[j]@),
            decreases mimes@.len() - i,
        {
            if is_file_mime(mimes[i].as_str()) {
                files = true;
            }
            i = i + 1;
        }
        self.offered = mimes;
        self.begin_drag(files);
    }

    /// Tear the drag down once a widget has acted on it. The drag is marked
    /// over, not erased, and its generation does not move, so every watcher
    /// sees the same ended drag; the button state is forgotten, so the next
    /// drag waits for a press of its own.
    pub fn end_drag(&mut self)
        ensures
            final(self).drag == match old(self).drag {
                Some(d) => Some(Drag { ended: true, ..d }),
                None => None,
            },
            final(self).offered@.len() == 0,
            !final(self).button_pressed,
    {
        self.offered.clear();
        if let Some(drag) = self.drag {
            self.drag = Some(Drag { ended: true, ..drag });
        }
        self.button_pressed = false;
    }
}

/// A drag that has ended is never live, and the drag that replaces it is
/// live and shows watchers a generation they have not seen from it.
pub proof fn lemma_new_drag_is_live_and_fresh<P>(ended: Drag<P>, files: bool)
    requires
        ended.ended,
    ensures
        !is_live(Some(ended)),
        is_live(Some(fresh_drag(Some(ended), files))),
        fresh_drag(Some(ended), files).generation != ended.generation,
{
}

/// Every change to a drag shows a new generation.
pub proof fn lemma_bump_changes_generation<P>(d: Drag<P>)
    ensures
        bumped(d).generation != d.generation,
{
}

/// The first of `allowed` that `offered` advertises.
pub open spec fn first_allowed(allowed: Seq<Seq<char>>, offered: Seq<Seq<char>>) -> Option<
    Seq<char>,
>
    decreases allowed.len(),
{
    if allowed.len() == 0 {
        None
    } else if offered.contains(allowed[0]) {
        Some(allowed[0])
    } else {
        first_allowed(allowed.drop_first(), offered)
    }
}

fn contains_string(v: &Vec<String>, s: &str) -> (r: bool)
    ensures
        r == string_views(v@).contains(s@),
{
    let mut i: usize = 0;
    while i < v.len()
        invariant
            i <= v@.len(),
            forall|j: int| 0 <= j < i ==> v@[j]@ != s@,
        decreases v@.len() - i,
    {
        if str_eq(v[i].as_str(), s) {
            assert(string_views(v@)[i as int] == s@);
            return true;
        }
        i = i + 1;
    }
    assert(!string_views(v@).contains(s@)) by {
        if string_views(v@).contains(s@) {
            let k = choose|k: int| 0 <= k < v@.len() && string_views(v@)[k] == s@;
            assert(v@[k]@ == s@);
        }
    }
    false
}

/// The most preferred of `allowed` that an offer advertising `offered`
/// can be read as.
pub fn preferred_mime(allowed: &Vec<String>, offered: &Vec<String>) -> (r: Option<String>)
    ensures
        match r {
            Some(m) => first_allowed(string_views(allowed@), string_views(offered@)) == Some(m@),
            None => first_allowed(string_views(allowed@), string_views(offered@)) is None,
        },
{
    let mut i: usize = 0;
    assert(string_views(allowed@).skip(0) =~= string_views(allowed@));
    while i < allowed.len()
        invariant
            i <= allowed@.len(),
            first_allowed(string_views(allowed@), string_views(offered@)) == first_allowed(
                string_views(allowed@).skip(i as int),
                string_views(offered@),
            ),
        decreases allowed@.len() - i,
    {
        assert(string_views(allowed@).skip(i as int)[0] == allowed@[i as int]@);
        assert(string_views(allowed@).skip(i as int).drop_first() =~= string_views(allowed@).skip(
            i + 1,
        ));
        if contains_string(offered, allowed[i].as_str()) {
            return Some(allowed[i].clone());
        }
        i = i + 1;
    }
    None
}

/// The file list type an offer advertising `offered` would be read as, if
/// any.
pub open spec fn file_mime_of(offered: Seq<Seq<char>>) -> Option<Seq<char>> {
    first_allowed(seq!["x-special/gnome-copied-files"@, "text/uri-list"@], offered)
}

/// What to accept of a drag that came over us advertising `offered`: a file
/// list in preference to anything else, failing that the first type our own
/// drag (`own`) offered, and otherwise nothing. The flag says whether a file
/// list was found.
pub fn accepted_mime(offered: &Vec<String>, own: &Vec<String>) -> (r: (Option<String>, bool))
    ensures
        r.1 == (file_mime_of(string_views(offered@)) is Some),
        match r.0 {
            Some(m) => if r.1 {
                file_mime_of(string_views(offered@)) == Some(m@)
            } else {
                first_allowed(string_views(own@), string_views(offered@)) == Some(m@)
            },
            None => !r.1 && first_allowed(string_views(own@), string_views(offered@)) is None,
        },
{
    let mut file_mimes: Vec<String> = Vec::new();
    file_mimes.push("x-special/gnome-copied-files".to_owned());
    file_mimes.push("text/uri-list".to_owned());
    assert(string_views(file_mimes@) =~= seq!["x-special/gnome-copied-files"@, "text/uri-list"@]);
    match preferred_mime(&file_mimes, offered) {
        Some(m) => (Some(m), true),
        None => (preferred_mime(own, offered), false),
    }
}

/// A drag payload of exactly one MIME type and a body nothing reads: the tab
/// drag's, whose reorder is computed from local state.
pub struct Placeholder(pub String);

/// The body a [`Placeholder`] serves.
pub const PLACEHOLDER_BODY: [u8; 4] = [100, 114, 97, 103];

impl Placeholder {
    /// The one MIME type on offer.
    pub fn available(&self) -> (r: Vec<String>)
        ensures
            string_views(r@) == seq![self.0@],
    {
        let mut v: Vec<String> = Vec::new();
        v.push(self.0.clone());
        assert(string_views(v@) =~= seq![self.0@]);
        v
    }

    /// The body, for its own MIME type only.
    pub fn as_bytes(&self, mime_type: &str) -> (r: Option<Vec<u8>>)
        ensures
            match r {
                Some(b) => mime_type@ == self.0@ && b@ == PLACEHOLDER_BODY@,
                None => mime_type@ != self.0@,
            },
    {
        if str_eq(mime_type, self.0.as_str()) {
            let mut b: Vec<u8> = Vec::new();
            b.push(100);
            b.push(114);
            b.push(97);
            b.push(103);
            assert(b@ =~= PLACEHOLDER_BODY@);
            Some(b)
        } else {
            None
        }
    }
}

/// The most bytes a clipboard or drop payload may have.
pub const READ_LIMIT: usize = 67108864;

/// What happened on the way to the next chunk of a payload being read from
/// a pipe.
#[derive(Debug)]
pub enum ReadEvent {
    /// The deadline passed before the source finished.
    DeadlinePassed,
    /// Waiting for the pipe failed; `interrupted` when a signal cut it short.
    PollFailed { interrupted: bool },
    /// The wait ended with nothing to read yet.
    PollIdle,
    /// A read gave these bytes (at least one).
    Chunk(Vec<u8>),
    /// A read found the end: the source closed its end of the pipe.
    Eof,
    /// A read failed; `retry` when it was interrupted or would block.
    ReadFailed { retry: bool },
}

/// What the reader of a payload does next.
#[derive(Debug, PartialEq, Eq, Structural)]
pub enum ReadStep {
    /// Wait for the pipe to become readable, and read what is there.
    Poll,
    /// The payload is complete.
    Done,
    /// The source did not finish in time.
    TimedOut,
    /// The payload grew past [`READ_LIMIT`].
    TooLarge,
    /// Waiting or reading failed.
    Failed,
}

/// A payload being read from a pipe until the source closes it, with a
/// deadline and a bound on its size.
pub struct BoundedRead {
    data: Vec<u8>,
}

/// The next step after `event`, given that `len` bytes are in hand once a
/// chunk is added.
pub open spec fn read_step(event: ReadEvent, len: nat) -> ReadStep {
    match event {
        ReadEvent::DeadlinePassed => ReadStep::TimedOut,
        ReadEvent::PollFailed { interrupted } => if interrupted {
            ReadStep::Poll
        } else {
            ReadStep::Failed
        },
        ReadEvent::PollIdle => ReadStep::Poll,
        ReadEvent::Chunk(_) => if len > READ_LIMIT {
            ReadStep::TooLarge
        } else {
            ReadStep::Poll
        },
        ReadEvent::Eof => ReadStep::Done,
        ReadEvent::ReadFailed { retry } => if retry {
            ReadStep::Poll
        } else {
            ReadStep::Failed
        },
    }
}

impl BoundedRead {
    /// The bytes read so far.
    pub closed spec fn bytes(&self) -> Seq<u8> {
        self.data@
    }

    /// A read with nothing in hand yet.
    pub fn new() -> (r: Self)
        ensures
            r.bytes() == Seq::<u8>::empty(),
    {
        BoundedRead { data: Vec::new() }
    }

    /// Take in `event` and say what to do next. A chunk is added to the
    /// payload; a payload past [`READ_LIMIT`] is too large; the end of the
    /// pipe completes it; an interrupted wait or read, or a read that would
    /// block, waits again; the deadline ends the read.
    pub fn step(&mut self, event: ReadEvent) -> (r: ReadStep)
        requires
            old(self).bytes().len() <= READ_LIMIT,
        ensures
            final(self).bytes() == (match event {
                ReadEvent::Chunk(c) => old(self).bytes() + c@,
                _ => old(self).bytes(),
            }),
            r == read_step(event, final(self).bytes().len()),
            r == ReadStep::Poll ==> final(self).bytes().len() <= READ_LIMIT,
    {
        match event {
            ReadEvent::DeadlinePassed => ReadStep::TimedOut,
            ReadEvent::PollFailed { interrupted } => if interrupted {
                ReadStep::Poll
            } else {
                ReadStep::Failed
            },
            ReadEvent::PollIdle => ReadStep::Poll,
            ReadEvent::Chunk(chunk) => {
                let ghost before = self.data@;
                let mut i: usize = 0;
                while i < chunk.len()
                    invariant
                        i <= chunk@.len(),
                        self.data@ == before + chunk@.take(i as int),
                    decreases chunk@.len() - i,
                {
                    self.data.push(chunk[i]);
                    assert(chunk@.take(i + 1) =~= chunk@.take(i as int).push(chunk@[i as int]));
                    i = i + 1;
                }
                assert(chunk@.take(chunk@.len() as int) =~= chunk@);
                if self.data.len() > READ_LIMIT {
                    ReadStep::TooLarge
                } else {
                    ReadStep::Poll
                }
            },
            ReadEvent::Eof => ReadStep::Done,
            ReadEvent::ReadFailed { retry } => if retry {
                ReadStep::Poll
            } else {
                ReadStep::Failed
            },
        }
    }

    /// The payload, once the read is done.
    pub fn into_bytes(self) -> (r: Vec<u8>)
        ensures
            r@ == self.bytes(),
    {
        self.data
    }
}

} // verus!
