//! The progress publisher: throttled live-status updates to the external
//! transcript sink. An update goes out only when the content changed and
//! the configured interval has passed since the previous one; at the end
//! of the request exactly one unconditional terminal flush follows,
//! exempt from the throttle.

use vstd::prelude::*;
use vstd::string::StringExecFns;

verus! {

/// The compact state marker shown to the user.
#[derive(Clone, Copy, PartialEq, Eq, Structural, Debug)]
pub enum Glyph {
    Pending,
    Success,
    Failure,
}

impl Glyph {
    /// The marker's symbol.
    pub fn symbol(&self) -> (r: &'static str)
        ensures
            *self is Pending ==> r@ == "⌛"@,
            *self is Success ==> r@ == "✅"@,
            *self is Failure ==> r@ == "❌"@,
    {
        match self {
            Glyph::Pending => "⌛",
            Glyph::Success => "✅",
            Glyph::Failure => "❌",
        }
    }
}

/// The symbol of each glyph, as the payload spec sees it.
pub open spec fn glyph_symbol(g: Glyph) -> Seq<char> {
    match g {
        Glyph::Pending => "⌛"@,
        Glyph::Success => "✅"@,
        Glyph::Failure => "❌"@,
    }
}

/// One progress payload: the echoed request text, the accumulated status
/// log, the state glyph and the currently visible reply text.
pub open spec fn payload_text(
    echo: Seq<char>,
    log: Seq<char>,
    g: Glyph,
    visible: Seq<char>,
) -> Seq<char> {
    echo + log + glyph_symbol(g) + " "@ + visible
}

/// Compose one progress payload.
pub fn compose_payload(echo: &str, log: &str, glyph: Glyph, visible: &str) -> (r: String)
    ensures
        r@ == payload_text(echo@, log@, glyph, visible@),
{
    let mut s = echo.to_owned();
    s.append(log);
    s.append(glyph.symbol());
    s.append(" ");
    s.append(visible);
    proof {
        assert(s@ =~= payload_text(echo@, log@, glyph, visible@));
    }
    s
}

/// The throttle state of one request's progress feed.
///
/// The ghost history records the instant of every throttled publish that
/// was granted; well-formedness pins consecutive grants at least the
/// interval apart. The terminal flush is not part of the history: it is
/// unconditional, and the `flushed` flag admits it once.
pub struct Publisher {
    pub interval_ms: u64,
    pub last_published_at: Option<u64>,
    pub flushed: bool,
    pub history: Ghost<Seq<u64>>,
}

impl Publisher {
    pub open spec fn wf(self) -> bool {
        &&& forall|i: int| 0 <= i < self.history@.len() - 1
            ==> #[trigger] self.history@[i + 1] >= self.history@[i] + self.interval_ms
        &&& match self.last_published_at {
            Some(t) => self.history@.len() > 0 && self.history@.last() == t,
            None => self.history@.len() == 0,
        }
    }

    /// A fresh feed that has published nothing.
    pub fn new(interval_ms: u64) -> (r: Self)
        ensures
            r.wf(),
            r.interval_ms == interval_ms,
            r.last_published_at is None,
            !r.flushed,
            r.history@ == Seq::<u64>::empty(),
    {
        Publisher {
            interval_ms,
            last_published_at: None,
            flushed: false,
            history: Ghost(Seq::empty()),
        }
    }

    /// Decide one throttled update: granted exactly when the content
    /// changed and the interval has passed since the previous grant (or
    /// none was granted yet). A grant is recorded at `now_ms`.
    pub fn try_publish(&mut self, now_ms: u64, changed: bool) -> (granted: bool)
        requires
            old(self).wf(),
            !old(self).flushed,
        ensures
            final(self).wf(),
            granted == (changed && match old(self).last_published_at {
                Some(t) => now_ms >= t + old(self).interval_ms,
                None => true,
            }),
            granted ==> {
                &&& final(self).last_published_at == Some(now_ms)
                &&& final(self).history@ == old(self).history@.push(now_ms)
            },
            !granted ==> *final(self) == *old(self),
            final(self).interval_ms == old(self).interval_ms,
            final(self).flushed == old(self).flushed,
    {
        let due = match self.last_published_at {
            Some(t) => now_ms >= t && now_ms - t >= self.interval_ms,
            None => true,
        };
        if changed && due {
            self.last_published_at = Some(now_ms);
            proof {
                self.history@ = self.history@.push(now_ms);
            }
            true
        } else {
            false
        }
    }

    /// The one unconditional terminal flush of the request, exempt from
    /// the throttle; it can happen only once.
    pub fn final_flush(&mut self)
        requires
            old(self).wf(),
            !old(self).flushed,
        ensures
            final(self).wf(),
            final(self).flushed,
            final(self).history@ == old(self).history@,
            final(self).last_published_at == old(self).last_published_at,
            final(self).interval_ms == old(self).interval_ms,
    {
        self.flushed = true;
    }
}

/// Throttle law: any two granted publishes of one request lie at least
/// the interval apart; only the single terminal flush is exempt.
pub proof fn lemma_publish_throttle(p: Publisher, i: int, j: int)
    requires
        p.wf(),
        0 <= i < j < p.history@.len(),
    ensures
        p.history@[j] >= p.history@[i] + p.interval_ms,
    decreases j - i,
{
    if j == i + 1 {
        assert(p.history@[i + 1] >= p.history@[i] + p.interval_ms);
    } else {
        lemma_publish_throttle(p, i, j - 1);
        assert(p.history@[j - 1 + 1] >= p.history@[j - 1] + p.interval_ms);
    }
}

} // verus!
