//! Budgets of the render, text and preview caches.

use crate::text::join2;
use vstd::prelude::*;

verus! {

/// Most tiles that a render cache may hold.
pub const MAX_RENDER_CACHE_ENTRIES: usize = 4_096;

/// Most bytes that a render cache may hold.
pub const MAX_RENDER_CACHE_BYTES: usize = 2_147_483_648;

/// Most pages that a text cache may hold.
pub const MAX_TEXT_CACHE_PAGES: usize = 16_384;

/// Most characters that a text cache may hold.
pub const MAX_TEXT_CACHE_CHARACTERS: usize = 100_000_000;

/// Most previews that a preview cache may hold.
pub const MAX_PREVIEW_CACHE_ENTRIES: usize = 512;

/// Most bytes that a preview cache may hold.
pub const MAX_PREVIEW_CACHE_BYTES: usize = 536_870_912;

/// Cache budgets that were checked against the hard maxima.
#[derive(Clone, Copy, Debug, PartialEq, Eq, Structural)]
pub struct CachePolicy {
    render_entries: usize,
    render_bytes: usize,
    text_pages: usize,
    text_characters: usize,
    preview_entries: usize,
    preview_bytes: usize,
}

/// Why a budget was refused, with the name of its cache.
#[derive(Clone, Copy, Debug, PartialEq, Eq)]
pub enum CachePolicyError {
    /// One of count and size is zero and the other is not.
    InconsistentDisabledBudget(&'static str),
    /// The count is over its maximum.
    EntryLimitExceeded(&'static str),
    /// The size is over its maximum.
    SizeLimitExceeded(&'static str),
}

/// The caches that a policy covers, in the order in which they are checked.
#[derive(Clone, Copy, Debug, PartialEq, Eq, Structural)]
pub enum CacheKind {
    Render,
    Text,
    Preview,
}

/// How a cache is called in messages.
pub open spec fn label_text(kind: CacheKind) -> Seq<char> {
    match kind {
        CacheKind::Render => "render"@,
        CacheKind::Text => "text"@,
        CacheKind::Preview => "preview"@,
    }
}

/// What is wrong with one cache's count and size, if anything.
pub open spec fn pair_error(
    entries: usize,
    size: usize,
    max_entries: usize,
    max_size: usize,
) -> Option<PairError> {
    if (entries == 0) != (size == 0) {
        Some(PairError::Inconsistent)
    } else if entries > max_entries {
        Some(PairError::Entries)
    } else if size > max_size {
        Some(PairError::Size)
    } else {
        None
    }
}

/// The ways in which one budget can be wrong.
#[derive(Clone, Copy, Debug, PartialEq, Eq, Structural)]
pub enum PairError {
    Inconsistent,
    Entries,
    Size,
}

impl CachePolicyError {
    /// The error says this of this cache.
    pub open spec fn reports(self, kind: CacheKind, error: PairError) -> bool {
        match self {
            CachePolicyError::InconsistentDisabledBudget(label) => error is Inconsistent && label@
                == label_text(kind),
            CachePolicyError::EntryLimitExceeded(label) => error is Entries && label@
                == label_text(kind),
            CachePolicyError::SizeLimitExceeded(label) => error is Size && label@
                == label_text(kind),
        }
    }

    /// The words of [`message`](Self::message).
    pub open spec fn message_text(self) -> Seq<char> {
        match self {
            CachePolicyError::InconsistentDisabledBudget(label) => label@
                + " cache count and size must both be zero or non-zero"@,
            CachePolicyError::EntryLimitExceeded(label) => label@ + " cache count is too large"@,
            CachePolicyError::SizeLimitExceeded(label) => label@ + " cache budget is too large"@,
        }
    }

    /// The error in words.
    pub fn message(&self) -> (text: String)
        ensures
            text@ == self.message_text(),
    {
        match self {
            CachePolicyError::InconsistentDisabledBudget(label) => join2(
                label,
                " cache count and size must both be zero or non-zero",
            ),
            CachePolicyError::EntryLimitExceeded(label) => join2(label, " cache count is too large"),
            CachePolicyError::SizeLimitExceeded(label) => join2(label, " cache budget is too large"),
        }
    }
}

/// Checks one cache's count and size.
fn validate_pair(
    kind: CacheKind,
    entries: usize,
    size: usize,
    max_entries: usize,
    max_size: usize,
) -> (checked: Result<(), CachePolicyError>)
    ensures
        match pair_error(entries, size, max_entries, max_size) {
            None => checked is Ok,
            Some(wrong) => checked matches Err(error) && error.reports(kind, wrong),
        },
{
    let label = match kind {
        CacheKind::Render => "render",
        CacheKind::Text => "text",
        CacheKind::Preview => "preview",
    };
    if (entries == 0) != (size == 0) {
        return Err(CachePolicyError::InconsistentDisabledBudget(label));
    }
    if entries > max_entries {
        return Err(CachePolicyError::EntryLimitExceeded(label));
    }
    if size > max_size {
        return Err(CachePolicyError::SizeLimitExceeded(label));
    }
    Ok(())
}

impl CachePolicy {
    /// The tile count budget.
    pub closed spec fn spec_render_entries(self) -> usize {
        self.render_entries
    }

    /// The tile byte budget.
    pub closed spec fn spec_render_bytes(self) -> usize {
        self.render_bytes
    }

    /// The text page budget.
    pub closed spec fn spec_text_pages(self) -> usize {
        self.text_pages
    }

    /// The text character budget.
    pub closed spec fn spec_text_characters(self) -> usize {
        self.text_characters
    }

    /// The preview count budget.
    pub closed spec fn spec_preview_entries(self) -> usize {
        self.preview_entries
    }

    /// The preview byte budget.
    pub closed spec fn spec_preview_bytes(self) -> usize {
        self.preview_bytes
    }

    /// The policy holds exactly these budgets.
    pub open spec fn holds(
        self,
        render_entries: usize,
        render_bytes: usize,
        text_pages: usize,
        text_characters: usize,
        preview_entries: usize,
        preview_bytes: usize,
    ) -> bool {
        &&& self.spec_render_entries() == render_entries
        &&& self.spec_render_bytes() == render_bytes
        &&& self.spec_text_pages() == text_pages
        &&& self.spec_text_characters() == text_characters
        &&& self.spec_preview_entries() == preview_entries
        &&& self.spec_preview_bytes() == preview_bytes
    }

    /// Every budget is within its maximum, and each cache is on or off whole.
    pub open spec fn wf(self) -> bool {
        &&& pair_error(
            self.spec_render_entries(),
            self.spec_render_bytes(),
            MAX_RENDER_CACHE_ENTRIES,
            MAX_RENDER_CACHE_BYTES,
        ) is None
        &&& pair_error(
            self.spec_text_pages(),
            self.spec_text_characters(),
            MAX_TEXT_CACHE_PAGES,
            MAX_TEXT_CACHE_CHARACTERS,
        ) is None
        &&& pair_error(
            self.spec_preview_entries(),
            self.spec_preview_bytes(),
            MAX_PREVIEW_CACHE_ENTRIES,
            MAX_PREVIEW_CACHE_BYTES,
        ) is None
    }

    /// Checks the budgets: render, then text, then preview.
    pub fn try_new(
        render_entries: usize,
        render_bytes: usize,
        text_pages: usize,
        text_characters: usize,
        preview_entries: usize,
        preview_bytes: usize,
    ) -> (made: Result<CachePolicy, CachePolicyError>)
        ensures
            match (
                pair_error(
                    render_entries,
                    render_bytes,
                    MAX_RENDER_CACHE_ENTRIES,
                    MAX_RENDER_CACHE_BYTES,
                ),
                pair_error(
                    text_pages,
                    text_characters,
                    MAX_TEXT_CACHE_PAGES,
                    MAX_TEXT_CACHE_CHARACTERS,
                ),
                pair_error(
                    preview_entries,
                    preview_bytes,
                    MAX_PREVIEW_CACHE_ENTRIES,
                    MAX_PREVIEW_CACHE_BYTES,
                ),
            ) {
                (Some(wrong), _, _) => made matches Err(error) && error.reports(
                    CacheKind::Render,
                    wrong,
                ),
                (None, Some(wrong), _) => made matches Err(error) && error.reports(
                    CacheKind::Text,
                    wrong,
                ),
                (None, None, Some(wrong)) => made matches Err(error) && error.reports(
                    CacheKind::Preview,
                    wrong,
                ),
                (None, None, None) => made matches Ok(policy) && policy.wf() && policy.holds(
                    render_entries,
                    render_bytes,
                    text_pages,
                    text_characters,
                    preview_entries,
                    preview_bytes,
                ),
            },
    {
        if let Err(error) = validate_pair(
            CacheKind::Render,
            render_entries,
            render_bytes,
            MAX_RENDER_CACHE_ENTRIES,
            MAX_RENDER_CACHE_BYTES,
        ) {
            return Err(error);
        }
        if let Err(error) = validate_pair(
            CacheKind::Text,
            text_pages,
            text_characters,
            MAX_TEXT_CACHE_PAGES,
            MAX_TEXT_CACHE_CHARACTERS,
        ) {
            return Err(error);
        }
        if let Err(error) = validate_pair(
            CacheKind::Preview,
            preview_entries,
            preview_bytes,
            MAX_PREVIEW_CACHE_ENTRIES,
            MAX_PREVIEW_CACHE_BYTES,
        ) {
            return Err(error);
        }
        Ok(
            CachePolicy {
                render_entries,
                render_bytes,
                text_pages,
                text_characters,
                preview_entries,
                preview_bytes,
            },
        )
    }

    /// The tile count budget.
    pub fn render_entries(self) -> (count: usize)
        ensures
            count == self.spec_render_entries(),
    {
        self.render_entries
    }

    /// The tile byte budget.
    pub fn render_bytes(self) -> (count: usize)
        ensures
            count == self.spec_render_bytes(),
    {
        self.render_bytes
    }

    /// The text page budget.
    pub fn text_pages(self) -> (count: usize)
        ensures
            count == self.spec_text_pages(),
    {
        self.text_pages
    }

    /// The text character budget.
    pub fn text_characters(self) -> (count: usize)
        ensures
            count == self.spec_text_characters(),
    {
        self.text_characters
    }

    /// The preview count budget.
    pub fn preview_entries(self) -> (count: usize)
        ensures
            count == self.spec_preview_entries(),
    {
        self.preview_entries
    }

    /// The preview byte budget.
    pub fn preview_bytes(self) -> (count: usize)
        ensures
            count == self.spec_preview_bytes(),
    {
        self.preview_bytes
    }

    /// Whether tiles are cached at all.
    pub fn render_cache_enabled(self) -> (enabled: bool)
        ensures
            enabled == (self.spec_render_entries() != 0),
    {
        self.render_entries != 0
    }

    /// Whether text is cached at all.
    pub fn text_cache_enabled(self) -> (enabled: bool)
        ensures
            enabled == (self.spec_text_pages() != 0),
    {
        self.text_pages != 0
    }

    /// Whether previews are cached at all.
    pub fn preview_cache_enabled(self) -> (enabled: bool)
        ensures
            enabled == (self.spec_preview_entries() != 0),
    {
        self.preview_entries != 0
    }
}

impl Default for CachePolicy {
    fn default() -> (policy: CachePolicy)
        ensures
            policy.wf(),
            policy.holds(48, 134_217_728, 16, 1_600_000, 16, 16_777_216),
    {
        CachePolicy {
            render_entries: 48,
            render_bytes: 134_217_728,
            text_pages: 16,
            text_characters: 1_600_000,
            preview_entries: 16,
            preview_bytes: 16_777_216,
        }
    }
}

/// A checked policy that switches a cache off gives it no room either.
pub proof fn law_a_disabled_cache_has_no_budget(policy: CachePolicy)
    requires
        policy.wf(),
    ensures
        policy.spec_render_entries() == 0 <==> policy.spec_render_bytes() == 0,
        policy.spec_text_pages() == 0 <==> policy.spec_text_characters() == 0,
        policy.spec_preview_entries() == 0 <==> policy.spec_preview_bytes() == 0,
{
}

/// Budgets are accepted if and only if each cache has a count and a size or neither, and
/// none is over its maximum: 4096 tiles in two gibibytes, 16384 pages of a hundred million
/// characters, and 512 previews in half a gibibyte. A policy has the budgets that it was
/// made with.
pub proof fn law_budgets_are_accepted_up_to_the_maxima(
    render_entries: usize,
    render_bytes: usize,
    text_pages: usize,
    text_characters: usize,
    preview_entries: usize,
    preview_bytes: usize,
    made: Result<CachePolicy, CachePolicyError>,
)
    requires
        call_ensures(
            CachePolicy::try_new,
            (
                render_entries,
                render_bytes,
                text_pages,
                text_characters,
                preview_entries,
                preview_bytes,
            ),
            made,
        ),
    ensures
        made is Ok <==> {
            &&& render_entries == 0 <==> render_bytes == 0
            &&& text_pages == 0 <==> text_characters == 0
            &&& preview_entries == 0 <==> preview_bytes == 0
            &&& render_entries <= 4_096 && render_bytes <= 0x8000_0000
            &&& text_pages <= 16_384 && text_characters <= 100_000_000
            &&& preview_entries <= 512 && preview_bytes <= 0x2000_0000
        },
        made matches Ok(policy) ==> policy.spec_render_entries() == render_entries
            && policy.spec_render_bytes() == render_bytes && policy.spec_text_pages()
            == text_pages && policy.spec_text_characters() == text_characters
            && policy.spec_preview_entries() == preview_entries && policy.spec_preview_bytes()
            == preview_bytes,
        made matches Err(error) ==> match error {
            CachePolicyError::InconsistentDisabledBudget(cache) => {
                ||| cache@ == "render"@ && (render_entries == 0 || render_bytes == 0)
                ||| cache@ == "text"@ && (text_pages == 0 || text_characters == 0)
                ||| cache@ == "preview"@ && (preview_entries == 0 || preview_bytes == 0)
            },
            CachePolicyError::EntryLimitExceeded(cache) => {
                ||| cache@ == "render"@ && render_entries > 4_096
                ||| cache@ == "text"@ && text_pages > 16_384
                ||| cache@ == "preview"@ && preview_entries > 512
            },
            CachePolicyError::SizeLimitExceeded(cache) => {
                ||| cache@ == "render"@ && render_bytes > 0x8000_0000
                ||| cache@ == "text"@ && text_characters > 100_000_000
                ||| cache@ == "preview"@ && preview_bytes > 0x2000_0000
            },
        },
{
}

/// A cache is on if and only if it has a budget.
pub proof fn law_caches_with_a_budget_are_on(
    policy: CachePolicy,
    render: bool,
    text: bool,
    preview: bool,
)
    requires
        policy.wf(),
        call_ensures(CachePolicy::render_cache_enabled, (policy,), render),
        call_ensures(CachePolicy::text_cache_enabled, (policy,), text),
        call_ensures(CachePolicy::preview_cache_enabled, (policy,), preview),
    ensures
        render <==> policy.spec_render_bytes() > 0,
        text <==> policy.spec_text_characters() > 0,
        preview <==> policy.spec_preview_bytes() > 0,
{
}

} // verus!
