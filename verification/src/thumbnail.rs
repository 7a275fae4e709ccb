//! How an item's thumbnail is made, one step at a time.
//!
//! A thumbnail comes from the first source that gives one: a valid thumbnail
//! in the cache; the built-in image decoder, for images within the size limit
//! whose decoding fits the memory budget; the external thumbnailers for the
//! file's type; and last, for the previews that are never cached, an SVG
//! read whole or the start of a text file. When none gives one although a
//! supported thumbnailer was tried, the cache records the failure, so that
//! it is not tried the next time.
//!
//! [`ThumbnailPlan`] makes those decisions. Each step names the work to do
//! next (a [`ThumbnailAction`]); the caller does it (reading files, decoding,
//! running thumbnailers, writing the cache) and reports back what came of it
//! (a [`ThumbnailEvent`]), until the plan says how it finished.

use vstd::prelude::*;

verus! {

/// Bytes in one of the megabytes the size limits are given in.
pub const BYTES_PER_MB: u64 = 1000000;

/// The largest SVG file read whole for a preview.
pub const SVG_MAX_FILE_BYTES: u64 = 8000000;

/// The largest text file whose start is read for a preview.
pub const TEXT_PREVIEW_MAX_FILE_BYTES: u64 = 8000000;

/// The most bytes of a text file read for its preview.
pub const TEXT_PREVIEW_READ_BYTES: u64 = 262144;

/// The file a thumbnail is wanted for, as far as the thumbnailers care.
#[derive(Clone, Copy, Debug, PartialEq, Eq, Structural)]
pub struct ThumbnailSubject {
    /// Whether its type is `image/*`.
    pub is_image: bool,
    /// Whether its subtype is SVG.
    pub is_svg: bool,
    /// Whether its type is `text/*`.
    pub is_text: bool,
    /// Its size in bytes, or 0 when that is not known.
    pub size: u64,
    /// Whether an external thumbnailer handles its type.
    pub has_external: bool,
}

/// The configured limits.
#[derive(Clone, Copy, Debug, PartialEq, Eq, Structural)]
pub struct ThumbnailLimits {
    /// The largest image file, in megabytes, the built-in decoder takes.
    pub max_size_mb: u64,
    /// The memory budget for decoding, in megabytes, shared by the jobs.
    pub max_mem_mb: u64,
    /// How many thumbnails are made at once.
    pub jobs: u64,
    /// The thumbnail's size in pixels.
    pub size: u32,
}

/// What looking in the thumbnail cache found.
#[derive(Clone, Copy, Debug, PartialEq, Eq, Structural)]
pub enum CacheLookup {
    /// There is no cache for this file.
    Unavailable,
    /// A valid thumbnail is cached.
    Valid,
    /// A failure is recorded for this file.
    Failed,
    /// The cached thumbnail is stale or missing; it is made at this size.
    RequiresUpdate(u32),
}

/// What came of the work a step asked for.
#[derive(Clone, Copy, Debug, PartialEq, Eq, Structural)]
pub enum ThumbnailEvent {
    /// The cache was looked in.
    Cache(CacheLookup),
    /// The image's dimensions were read: whether decoding it would exceed
    /// the memory budget, or none when they could not be read.
    Dimensions(Option<bool>),
    /// The image was decoded, or not.
    Decoded(bool),
    /// A thumbnail was written to the cache, or not.
    Stored(bool),
    /// An external thumbnailer made a thumbnail, or none did.
    External(bool),
    /// The SVG was read, or not.
    SvgRead(bool),
    /// The start of the text file was read and held some text, or not.
    TextRead(bool),
    /// The failure was recorded.
    Marked,
}

/// How the thumbnail came out.
#[derive(Clone, Copy, Debug, PartialEq, Eq, Structural)]
pub enum ThumbnailOutcome {
    /// No thumbnail.
    NotImage,
    /// The cached thumbnail.
    Cached,
    /// The decoded image, as written to the cache.
    Decoded,
    /// The decoded image scaled down to this size in memory, there being no
    /// cache to write it to.
    Scaled(u32),
    /// What an external thumbnailer made.
    External,
    /// The SVG itself.
    Svg,
    /// The start of the text file.
    Text,
}

/// The work to do next.
#[derive(Clone, Copy, Debug, PartialEq, Eq, Structural)]
pub enum ThumbnailAction {
    /// Look in the cache for a thumbnail of this size.
    LookUpCache(u32),
    /// Read the image's dimensions and weigh them against the budget.
    ReadDimensions,
    /// Decode the image, allocating at most this many bytes.
    Decode(u64),
    /// Write the decoded image to the cache.
    StoreDecoded,
    /// Run the external thumbnailers for a thumbnail of this size, writing
    /// into the cache's directory when `true` (there is a cache) and into
    /// the temporary directory otherwise.
    RunExternal(u32, bool),
    /// Move what the external thumbnailer made into the cache.
    StoreExternal,
    /// Read the SVG.
    ReadSvg,
    /// Read at most this many bytes from the start of the text file.
    ReadText(u64),
    /// Record in the cache that no thumbnail could be made.
    MarkFailed,
    /// Done.
    Finish(ThumbnailOutcome),
}

/// Where a plan is.
#[derive(Clone, Copy, Debug, PartialEq, Eq, Structural)]
pub enum ThumbnailStage {
    AwaitCache,
    AwaitDimensions,
    AwaitDecode,
    AwaitStore,
    AwaitExternal,
    AwaitStoreExternal,
    AwaitSvg,
    AwaitText,
    AwaitMark,
    Done(ThumbnailOutcome),
}

/// A plan, as a value.
pub struct PlanModel {
    pub subject: ThumbnailSubject,
    pub limits: ThumbnailLimits,
    /// Whether there is a cache for the file.
    pub cached: bool,
    /// The size the thumbnail is made at.
    pub size: u32,
    /// Whether a thumbnailer that supports the file was tried.
    pub tried: bool,
    pub stage: ThumbnailStage,
}

/// The largest image, in bytes, the built-in decoder takes.
pub open spec fn image_size_limit(limits: ThumbnailLimits) -> int {
    limits.max_size_mb * BYTES_PER_MB
}

/// The most one decode may allocate: its job's share of the budget.
pub open spec fn decode_allowance(limits: ThumbnailLimits) -> int {
    (limits.max_mem_mb * BYTES_PER_MB) / (limits.jobs as int)
}

/// Whether the limits can be worked with: the byte counts fit and there is
/// at least one job.
pub open spec fn limits_ok(limits: ThumbnailLimits) -> bool {
    &&& limits.max_size_mb * BYTES_PER_MB <= u64::MAX
    &&& limits.max_mem_mb * BYTES_PER_MB <= u64::MAX
    &&& limits.jobs > 0
}

/// Whether the built-in decoder takes the file.
pub open spec fn decodable(p: PlanModel) -> bool {
    p.subject.is_image && p.subject.size <= image_size_limit(p.limits)
}

/// The work a plan at `p` asks for.
pub open spec fn pending(p: PlanModel) -> ThumbnailAction {
    match p.stage {
        ThumbnailStage::AwaitCache => ThumbnailAction::LookUpCache(p.size),
        ThumbnailStage::AwaitDimensions => ThumbnailAction::ReadDimensions,
        ThumbnailStage::AwaitDecode => ThumbnailAction::Decode(decode_allowance(p.limits) as u64),
        ThumbnailStage::AwaitStore => ThumbnailAction::StoreDecoded,
        ThumbnailStage::AwaitExternal => ThumbnailAction::RunExternal(p.size, p.cached),
        ThumbnailStage::AwaitStoreExternal => ThumbnailAction::StoreExternal,
        ThumbnailStage::AwaitSvg => ThumbnailAction::ReadSvg,
        ThumbnailStage::AwaitText => ThumbnailAction::ReadText(
            if p.subject.size < TEXT_PREVIEW_READ_BYTES {
                p.subject.size
            } else {
                TEXT_PREVIEW_READ_BYTES
            },
        ),
        ThumbnailStage::AwaitMark => ThumbnailAction::MarkFailed,
        ThumbnailStage::Done(o) => ThumbnailAction::Finish(o),
    }
}

/// Giving up: recording the failure when there is a cache and a supported
/// thumbnailer was tried, finishing without a thumbnail otherwise.
pub open spec fn give_up(p: PlanModel) -> PlanModel {
    if p.cached && p.tried {
        PlanModel { stage: ThumbnailStage::AwaitMark, ..p }
    } else {
        PlanModel { stage: ThumbnailStage::Done(ThumbnailOutcome::NotImage), ..p }
    }
}

/// After the external thumbnailers gave nothing: the previews that are never
/// cached, for an SVG or a text file within their limits, and otherwise
/// giving up. A type an external thumbnailer handles counts as tried.
pub open spec fn after_external(p: PlanModel) -> PlanModel {
    let p = PlanModel { tried: p.tried || p.subject.has_external, ..p };
    if p.subject.is_image && p.subject.is_svg && p.subject.size <= SVG_MAX_FILE_BYTES {
        PlanModel { tried: true, stage: ThumbnailStage::AwaitSvg, ..p }
    } else if p.subject.is_text && p.subject.size <= TEXT_PREVIEW_MAX_FILE_BYTES {
        let p = PlanModel { tried: true, ..p };
        if p.subject.size > 0 {
            PlanModel { stage: ThumbnailStage::AwaitText, ..p }
        } else {
            give_up(p)
        }
    } else {
        give_up(p)
    }
}

/// On to the built-in decoder, for a file it takes; on to the external
/// thumbnailers otherwise.
pub open spec fn to_decoder(p: PlanModel) -> PlanModel {
    if decodable(p) {
        PlanModel { stage: ThumbnailStage::AwaitDimensions, ..p }
    } else {
        PlanModel { stage: ThumbnailStage::AwaitExternal, ..p }
    }
}

/// The plan after `e`; an event the plan is not waiting for changes nothing.
pub open spec fn plan_next(p: PlanModel, e: ThumbnailEvent) -> PlanModel {
    match (p.stage, e) {
        (ThumbnailStage::AwaitCache, ThumbnailEvent::Cache(l)) => match l {
            CacheLookup::Valid => PlanModel { cached: true, stage: ThumbnailStage::Done(ThumbnailOutcome::Cached), ..p },
            CacheLookup::Failed => if p.subject.is_image {
                to_decoder(PlanModel { cached: true, ..p })
            } else {
                PlanModel { cached: true, stage: ThumbnailStage::Done(ThumbnailOutcome::NotImage), ..p }
            },
            CacheLookup::RequiresUpdate(size) => to_decoder(PlanModel { cached: true, size, ..p }),
            CacheLookup::Unavailable => to_decoder(PlanModel { cached: false, ..p }),
        },
        (ThumbnailStage::AwaitDimensions, ThumbnailEvent::Dimensions(d)) => if d == Some(true) {
            PlanModel { stage: ThumbnailStage::Done(ThumbnailOutcome::NotImage), ..p }
        } else {
            PlanModel { tried: true, stage: ThumbnailStage::AwaitDecode, ..p }
        },
        (ThumbnailStage::AwaitDecode, ThumbnailEvent::Decoded(ok)) => if !ok {
            PlanModel { stage: ThumbnailStage::AwaitExternal, ..p }
        } else if p.cached {
            PlanModel { stage: ThumbnailStage::AwaitStore, ..p }
        } else {
            PlanModel { stage: ThumbnailStage::Done(ThumbnailOutcome::Scaled(p.size)), ..p }
        },
        (ThumbnailStage::AwaitStore, ThumbnailEvent::Stored(ok)) => if ok {
            PlanModel { stage: ThumbnailStage::Done(ThumbnailOutcome::Decoded), ..p }
        } else {
            PlanModel { stage: ThumbnailStage::AwaitExternal, ..p }
        },
        (ThumbnailStage::AwaitExternal, ThumbnailEvent::External(ok)) => if !ok {
            after_external(p)
        } else if p.cached {
            PlanModel { stage: ThumbnailStage::AwaitStoreExternal, ..p }
        } else {
            PlanModel { stage: ThumbnailStage::Done(ThumbnailOutcome::External), ..p }
        },
        (ThumbnailStage::AwaitStoreExternal, ThumbnailEvent::Stored(_)) => PlanModel {
            stage: ThumbnailStage::Done(ThumbnailOutcome::External),
            ..p
        },
        (ThumbnailStage::AwaitSvg, ThumbnailEvent::SvgRead(ok)) => if ok {
            PlanModel { stage: ThumbnailStage::Done(ThumbnailOutcome::Svg), ..p }
        } else {
            give_up(p)
        },
        (ThumbnailStage::AwaitText, ThumbnailEvent::TextRead(ok)) => if ok {
            PlanModel { stage: ThumbnailStage::Done(ThumbnailOutcome::Text), ..p }
        } else {
            give_up(p)
        },
        (ThumbnailStage::AwaitMark, ThumbnailEvent::Marked) => PlanModel {
            stage: ThumbnailStage::Done(ThumbnailOutcome::NotImage),
            ..p
        },
        _ => p,
    }
}

/// How far along a stage is; every event a plan waits for moves it further.
pub open spec fn stage_rank(s: ThumbnailStage) -> int {
    match s {
        ThumbnailStage::AwaitCache => 0,
        ThumbnailStage::AwaitDimensions => 1,
        ThumbnailStage::AwaitDecode => 2,
        ThumbnailStage::AwaitStore => 3,
        ThumbnailStage::AwaitExternal => 4,
        ThumbnailStage::AwaitStoreExternal => 5,
        ThumbnailStage::AwaitSvg => 6,
        ThumbnailStage::AwaitText => 6,
        ThumbnailStage::AwaitMark => 7,
        ThumbnailStage::Done(_) => 8,
    }
}

/// What every plan keeps: its limits can be worked with; the decoder only
/// sees image files within the size limit, the SVG preview only SVG files
/// within theirs, the text preview only non-empty text files within theirs;
/// and the failure is only recorded with a cache, after a supported
/// thumbnailer was tried.
pub open spec fn plan_wf(p: PlanModel) -> bool {
    &&& limits_ok(p.limits)
    &&& (p.stage == ThumbnailStage::AwaitDimensions || p.stage == ThumbnailStage::AwaitDecode || p.stage == ThumbnailStage::AwaitStore) ==> decodable(p)
    &&& (p.stage == ThumbnailStage::AwaitDecode || p.stage == ThumbnailStage::AwaitStore) ==> p.tried
    &&& p.stage == ThumbnailStage::AwaitStore ==> p.cached
    &&& p.stage == ThumbnailStage::AwaitStoreExternal ==> p.cached
    &&& p.stage == ThumbnailStage::AwaitSvg ==> p.subject.is_image && p.subject.is_svg && p.subject.size <= SVG_MAX_FILE_BYTES && p.tried
    &&& p.stage == ThumbnailStage::AwaitText ==> p.subject.is_text && 0 < p.subject.size <= TEXT_PREVIEW_MAX_FILE_BYTES && p.tried
    &&& p.stage == ThumbnailStage::AwaitMark ==> p.cached && p.tried
}

/// The making of one thumbnail.
pub struct ThumbnailPlan {
    subject: ThumbnailSubject,
    limits: ThumbnailLimits,
    cached: bool,
    size: u32,
    tried: bool,
    stage: ThumbnailStage,
}

impl ThumbnailPlan {
    /// The plan as a value.
    pub closed spec fn model(&self) -> PlanModel {
        PlanModel {
            subject: self.subject,
            limits: self.limits,
            cached: self.cached,
            size: self.size,
            tried: self.tried,
            stage: self.stage,
        }
    }

    /// A plan for `subject` under `limits`, and its first step: looking in
    /// the cache for a thumbnail of the configured size.
    pub fn new(subject: ThumbnailSubject, limits: ThumbnailLimits) -> (r: (Self, ThumbnailAction))
        requires
            limits_ok(limits),
        ensures
            r.0.model() == (PlanModel {
                subject,
                limits,
                cached: false,
                size: limits.size,
                tried: false,
                stage: ThumbnailStage::AwaitCache,
            }),
            plan_wf(r.0.model()),
            r.1 == pending(r.0.model()),
            r.1 == ThumbnailAction::LookUpCache(limits.size),
    {
        let plan = ThumbnailPlan {
            subject,
            limits,
            cached: false,
            size: limits.size,
            tried: false,
            stage: ThumbnailStage::AwaitCache,
        };
        (plan, ThumbnailAction::LookUpCache(limits.size))
    }

    /// The work the plan asks for now.
    pub fn action(&self) -> (r: ThumbnailAction)
        requires
            plan_wf(self.model()),
        ensures
            r == pending(self.model()),
    {
        match self.stage {
            ThumbnailStage::AwaitCache => ThumbnailAction::LookUpCache(self.size),
            ThumbnailStage::AwaitDimensions => ThumbnailAction::ReadDimensions,
            ThumbnailStage::AwaitDecode => {
                let budget = self.limits.max_mem_mb * BYTES_PER_MB;
                ThumbnailAction::Decode(budget / self.limits.jobs)
            },
            ThumbnailStage::AwaitStore => ThumbnailAction::StoreDecoded,
            ThumbnailStage::AwaitExternal => ThumbnailAction::RunExternal(self.size, self.cached),
            ThumbnailStage::AwaitStoreExternal => ThumbnailAction::StoreExternal,
            ThumbnailStage::AwaitSvg => ThumbnailAction::ReadSvg,
            ThumbnailStage::AwaitText => {
                let cap = if self.subject.size < TEXT_PREVIEW_READ_BYTES {
                    self.subject.size
                } else {
                    TEXT_PREVIEW_READ_BYTES
                };
                ThumbnailAction::ReadText(cap)
            },
            ThumbnailStage::AwaitMark => ThumbnailAction::MarkFailed,
            ThumbnailStage::Done(o) => ThumbnailAction::Finish(o),
        }
    }

    fn give_up(&mut self)
        ensures
            final(self).model() == give_up(old(self).model()),
    {
        if self.cached && self.tried {
            self.stage = ThumbnailStage::AwaitMark;
        } else {
            self.stage = ThumbnailStage::Done(ThumbnailOutcome::NotImage);
        }
    }

    fn after_external(&mut self)
        ensures
            final(self).model() == after_external(old(self).model()),
    {
        self.tried = self.tried || self.subject.has_external;
        if self.subject.is_image && self.subject.is_svg && self.subject.size <= SVG_MAX_FILE_BYTES {
            self.tried = true;
            self.stage = ThumbnailStage::AwaitSvg;
        } else if self.subject.is_text && self.subject.size <= TEXT_PREVIEW_MAX_FILE_BYTES {
            self.tried = true;
            if self.subject.size > 0 {
                self.stage = ThumbnailStage::AwaitText;
            } else {
                self.give_up();
            }
        } else {
            self.give_up();
        }
    }

    fn to_decoder(&mut self)
        requires
            limits_ok(old(self).model().limits),
        ensures
            final(self).model() == to_decoder(old(self).model()),
    {
        let limit = self.limits.max_size_mb * BYTES_PER_MB;
        if self.subject.is_image && self.subject.size <= limit {
            self.stage = ThumbnailStage::AwaitDimensions;
        } else {
            self.stage = ThumbnailStage::AwaitExternal;
        }
    }

    /// Reports what came of the work asked for, and returns the work to do
    /// next. An event the plan is not waiting for changes nothing, and the
    /// same work is asked for again.
    pub fn step(&mut self, event: ThumbnailEvent) -> (r: ThumbnailAction)
        requires
            plan_wf(old(self).model()),
        ensures
            final(self).model() == plan_next(old(self).model(), event),
            plan_wf(final(self).model()),
            r == pending(final(self).model()),
    {
        match (self.stage, event) {
            (ThumbnailStage::AwaitCache, ThumbnailEvent::Cache(l)) => match l {
                CacheLookup::Valid => {
                    self.cached = true;
                    self.stage = ThumbnailStage::Done(ThumbnailOutcome::Cached);
                },
                CacheLookup::Failed => {
                    self.cached = true;
                    if self.subject.is_image {
                        self.to_decoder();
                    } else {
                        self.stage = ThumbnailStage::Done(ThumbnailOutcome::NotImage);
                    }
                },
                CacheLookup::RequiresUpdate(size) => {
                    self.cached = true;
                    self.size = size;
                    self.to_decoder();
                },
                CacheLookup::Unavailable => {
                    self.cached = false;
                    self.to_decoder();
                },
            },
            (ThumbnailStage::AwaitDimensions, ThumbnailEvent::Dimensions(d)) => {
                if d == Some(true) {
                    self.stage = ThumbnailStage::Done(ThumbnailOutcome::NotImage);
                } else {
                    self.tried = true;
                    self.stage = ThumbnailStage::AwaitDecode;
                }
            },
            (ThumbnailStage::AwaitDecode, ThumbnailEvent::Decoded(ok)) => {
                if !ok {
                    self.stage = ThumbnailStage::AwaitExternal;
                } else if self.cached {
                    self.stage = ThumbnailStage::AwaitStore;
                } else {
                    self.stage = ThumbnailStage::Done(ThumbnailOutcome::Scaled(self.size));
                }
            },
            (ThumbnailStage::AwaitStore, ThumbnailEvent::Stored(ok)) => {
                if ok {
                    self.stage = ThumbnailStage::Done(ThumbnailOutcome::Decoded);
                } else {
                    self.stage = ThumbnailStage::AwaitExternal;
                }
            },
            (ThumbnailStage::AwaitExternal, ThumbnailEvent::External(ok)) => {
                if !ok {
                    self.after_external();
                } else if self.cached {
                    self.stage = ThumbnailStage::AwaitStoreExternal;
                } else {
                    self.stage = ThumbnailStage::Done(ThumbnailOutcome::External);
                }
            },
            (ThumbnailStage::AwaitStoreExternal, ThumbnailEvent::Stored(_)) => {
                self.stage = ThumbnailStage::Done(ThumbnailOutcome::External);
            },
            (ThumbnailStage::AwaitSvg, ThumbnailEvent::SvgRead(ok)) => {
                if ok {
                    self.stage = ThumbnailStage::Done(ThumbnailOutcome::Svg);
                } else {
                    self.give_up();
                }
            },
            (ThumbnailStage::AwaitText, ThumbnailEvent::TextRead(ok)) => {
                if ok {
                    self.stage = ThumbnailStage::Done(ThumbnailOutcome::Text);
                } else {
                    self.give_up();
                }
            },
            (ThumbnailStage::AwaitMark, ThumbnailEvent::Marked) => {
                self.stage = ThumbnailStage::Done(ThumbnailOutcome::NotImage);
            },
            _ => {},
        }
        self.action()
    }
}

/// Whether a plan at stage `s` is waiting for `e`.
pub open spec fn awaits(s: ThumbnailStage, e: ThumbnailEvent) -> bool {
    match (s, e) {
        (ThumbnailStage::AwaitCache, ThumbnailEvent::Cache(_)) => true,
        (ThumbnailStage::AwaitDimensions, ThumbnailEvent::Dimensions(_)) => true,
        (ThumbnailStage::AwaitDecode, ThumbnailEvent::Decoded(_)) => true,
        (ThumbnailStage::AwaitStore, ThumbnailEvent::Stored(_)) => true,
        (ThumbnailStage::AwaitExternal, ThumbnailEvent::External(_)) => true,
        (ThumbnailStage::AwaitStoreExternal, ThumbnailEvent::Stored(_)) => true,
        (ThumbnailStage::AwaitSvg, ThumbnailEvent::SvgRead(_)) => true,
        (ThumbnailStage::AwaitText, ThumbnailEvent::TextRead(_)) => true,
        (ThumbnailStage::AwaitMark, ThumbnailEvent::Marked) => true,
        _ => false,
    }
}

/// Every event a plan waits for moves it strictly further along, and any
/// other changes nothing; a plan is done exactly at the last rank, so at
/// most eight events finish any plan, and a finished plan stays finished.
pub proof fn lemma_every_awaited_event_moves_on(p: PlanModel, e: ThumbnailEvent)
    ensures
        0 <= stage_rank(p.stage) <= 8,
        (stage_rank(p.stage) == 8) == (p.stage is Done),
        awaits(p.stage, e) ==> stage_rank(plan_next(p, e).stage) > stage_rank(p.stage),
        !awaits(p.stage, e) ==> plan_next(p, e) == p,
        p.stage is Done ==> !awaits(p.stage, e),
{
}

/// Every step keeps what every plan keeps.
pub proof fn lemma_steps_keep_the_plan_well_formed(p: PlanModel, e: ThumbnailEvent)
    requires
        plan_wf(p),
    ensures
        plan_wf(plan_next(p, e)),
        plan_next(p, e).subject == p.subject,
        plan_next(p, e).limits == p.limits,
{
}

/// A valid cached thumbnail is used as it is: nothing is decoded or run.
pub proof fn lemma_a_valid_cached_thumbnail_is_used(p: PlanModel)
    requires
        p.stage == ThumbnailStage::AwaitCache,
    ensures
        pending(plan_next(p, ThumbnailEvent::Cache(CacheLookup::Valid))) == ThumbnailAction::Finish(ThumbnailOutcome::Cached),
{
}

/// A failure recorded for a file that is not an image is taken at its word:
/// nothing else is tried.
pub proof fn lemma_a_recorded_failure_stands_for_other_files(p: PlanModel)
    requires
        p.stage == ThumbnailStage::AwaitCache,
        !p.subject.is_image,
    ensures
        pending(plan_next(p, ThumbnailEvent::Cache(CacheLookup::Failed))) == ThumbnailAction::Finish(ThumbnailOutcome::NotImage),
{
}

/// An image whose decoding would exceed the memory budget gets no
/// thumbnail, and no failure is recorded for it: it is skipped, not failed.
pub proof fn lemma_an_image_over_budget_is_skipped(p: PlanModel)
    requires
        p.stage == ThumbnailStage::AwaitDimensions,
    ensures
        pending(plan_next(p, ThumbnailEvent::Dimensions(Some(true)))) == ThumbnailAction::Finish(ThumbnailOutcome::NotImage),
{
}

/// The decoder is asked to decode only when the file is an image within the
/// size limit, with its job's share of the memory budget; the SVG and the
/// text previews read only files within their limits, and the text preview
/// no more than its cap; and the failure is recorded only with a cache,
/// after a supported thumbnailer was tried.
pub proof fn lemma_work_stays_within_the_limits(p: PlanModel)
    requires
        plan_wf(p),
    ensures
        pending(p) matches ThumbnailAction::Decode(n) ==> decodable(p) && n == decode_allowance(p.limits),
        pending(p) == ThumbnailAction::ReadSvg ==> p.subject.is_svg && p.subject.size <= SVG_MAX_FILE_BYTES,
        pending(p) matches ThumbnailAction::ReadText(n) ==> p.subject.is_text && 0 < n <= TEXT_PREVIEW_READ_BYTES && n <= p.subject.size
            <= TEXT_PREVIEW_MAX_FILE_BYTES,
        pending(p) == ThumbnailAction::MarkFailed ==> p.cached && p.tried,
{
    if p.stage == ThumbnailStage::AwaitDecode {
        assert(0 <= decode_allowance(p.limits) <= u64::MAX) by (nonlinear_arith)
            requires
                0 <= p.limits.max_mem_mb * BYTES_PER_MB <= u64::MAX,
                p.limits.jobs > 0,
                decode_allowance(p.limits) == (p.limits.max_mem_mb * BYTES_PER_MB) / (p.limits.jobs as int),
        ;
    }
}

/// What the background work for a listing reads of an item.
#[derive(Clone, Copy, Debug, PartialEq, Eq, Structural)]
pub struct BackgroundItem {
    /// Whether it is on screen.
    pub visible: bool,
    /// Whether it has a path.
    pub has_path: bool,
    /// Whether it is a directory whose entries have not been counted.
    pub uncounted_dir: bool,
    /// Whether it has a thumbnail already.
    pub has_thumbnail: bool,
    /// Whether its kind of file can be thumbnailed (a file on disk).
    pub can_thumbnail: bool,
}

/// The items among the first `n` whose entries are counted in the
/// background: directories on screen, with a path, not yet counted.
pub open spec fn count_jobs(items: Seq<BackgroundItem>, n: int) -> Seq<usize>
    decreases n,
{
    if n <= 0 {
        seq![]
    } else {
        let it = items[n - 1];
        if it.uncounted_dir && it.visible && it.has_path {
            count_jobs(items, n - 1).push((n - 1) as usize)
        } else {
            count_jobs(items, n - 1)
        }
    }
}

/// The items from the `k`th on that are thumbnailed, with `running` jobs
/// already started and room for `jobs`: each item on screen, with a path and
/// no thumbnail, is looked at in turn, a thumbnail started for it when its
/// kind can be thumbnailed, and the looking stops once the jobs are full.
pub open spec fn thumbnail_jobs_from(items: Seq<BackgroundItem>, k: int, running: int, jobs: int) -> Seq<usize>
    decreases items.len() - k,
{
    if k < 0 || k >= items.len() {
        seq![]
    } else {
        let it = items[k];
        if it.has_thumbnail || !it.visible || !it.has_path {
            thumbnail_jobs_from(items, k + 1, running, jobs)
        } else {
            let started: Seq<usize> = if it.can_thumbnail {
                seq![k as usize]
            } else {
                seq![]
            };
            let now = running + started.len();
            if now >= jobs {
                started
            } else {
                started + thumbnail_jobs_from(items, k + 1, now, jobs)
            }
        }
    }
}

/// The directories on screen whose entries are to be counted, in order.
pub fn count_jobs_for(items: &[BackgroundItem]) -> (r: Vec<usize>)
    ensures
        r@ == count_jobs(items@, items@.len() as int),
{
    let mut out: Vec<usize> = Vec::new();
    let mut i: usize = 0;
    while i < items.len()
        invariant
            i <= items@.len(),
            out@ == count_jobs(items@, i as int),
        decreases items@.len() - i,
    {
        let it = items[i];
        if it.uncounted_dir && it.visible && it.has_path {
            out.push(i);
        }
        i = i + 1;
    }
    out
}

/// The items to thumbnail, in order, with `running` background jobs
/// already started and room for `jobs`: see [`thumbnail_jobs_from`].
pub fn thumbnail_jobs_for(items: &[BackgroundItem], running: usize, jobs: usize) -> (r: Vec<usize>)
    requires
        running < usize::MAX,
    ensures
        r@ == thumbnail_jobs_from(items@, 0, running as int, jobs as int),
{
    let mut out: Vec<usize> = Vec::new();
    let mut now: usize = running;
    let mut k: usize = 0;
    while k < items.len()
        invariant_except_break
            k <= items@.len(),
            running < usize::MAX,
            now >= running,
            now - running == out@.len(),
            now < jobs || out@.len() == 0,
            out@ + thumbnail_jobs_from(items@, k as int, now as int, jobs as int) == thumbnail_jobs_from(
                items@,
                0,
                running as int,
                jobs as int,
            ),
        ensures
            out@ == thumbnail_jobs_from(items@, 0, running as int, jobs as int),
        decreases items@.len() - k,
    {
        let it = items[k];
        if it.has_thumbnail || !it.visible || !it.has_path {
            k = k + 1;
            continue;
        }
        if it.can_thumbnail {
            out.push(k);
            now = now + 1;
        }
        if now >= jobs {
            break;
        }
        k = k + 1;
    }
    out
}

} // verus!
