use vstd::prelude::*;
use vstd::string::*;

use crate::bucket::{Bucket, BucketView};
use crate::config::Config;
use crate::display::DisplayState;
use crate::input::Action;
use crate::keys::{key_less, lemma_str_lt_total, lemma_str_lt_transitive, str_lt, strictly_sorted};
use crate::line::Line;
use crate::pattern::{
    classifies, classify, regex_compiles, regex_groups, regex_is_match, regex_replaced, trim, trimmed, Pattern,
    PatternError,
};

verus! {

/// The error heuristic: "error", "exception" or "stack" and "trace" with at
/// most one character between them, anywhere in the line, in any case.
pub const ERROR_PATTERN: &'static str = r"(?i).*(error|exception|stack.?trace).*";

/// Characters of a prefix that do not go into an export file name.
pub const FILE_NAME_UNSAFE: &'static str = r"[@\-/\\:]";

/// News from the supervised process.
#[derive(Clone, Debug)]
pub enum AppMessage {
    /// The process ended, with its exit code (none when a signal ended it).
    Exit(Option<i32>),
}

/// Whether `pos` is where `k` stands or belongs among the ordered `keys`.
pub open spec fn slot(keys: Seq<Seq<char>>, k: Seq<char>, pos: int) -> bool {
    &&& 0 <= pos <= keys.len()
    &&& forall|j: int| 0 <= j < pos ==> str_lt(#[trigger] keys[j], k)
    &&& forall|j: int| pos <= j < keys.len() ==> !str_lt(#[trigger] keys[j], k)
}

/// The state of the dashboard: one log per prefix, ordered by prefix, the
/// standard-error log, the log of lines without prefix, the selection and
/// the display mode.
pub struct App {
    /// Prefixes, strictly increasing; `buckets[i]` holds the lines of `keys[i]`.
    pub keys: Vec<String>,
    pub buckets: Vec<Bucket>,
    pub error_messages: Bucket,
    pub unprefixed_messages: Bucket,
    pub selected: Option<usize>,
    pub display_state: DisplayState,
    pub config: Config,
    pub regex: Pattern,
    pub error_regex: Pattern,
    pub exit_code: Option<Option<i32>>,
}

impl App {
    pub open spec fn key_views(&self) -> Seq<Seq<char>> {
        self.keys@.map_values(|k: String| k@)
    }

    pub open spec fn bucket_views(&self) -> Seq<BucketView> {
        self.buckets@.map_values(|b: Bucket| b@)
    }

    /// Keys and logs pair up, keys are strictly ordered, and the selection
    /// points at a log (or is zero while there is none).
    pub open spec fn wf(&self) -> bool {
        &&& self.keys@.len() == self.buckets@.len()
        &&& strictly_sorted(self.key_views())
        &&& self.selected matches Some(i) ==> (i < self.keys@.len() || i == 0)
    }

    /// The selected index where it points at a log.
    pub open spec fn selected_index(&self) -> Option<int> {
        match self.selected {
            Some(i) => if i < self.keys@.len() {
                Some(i as int)
            } else {
                None
            },
            None => None,
        }
    }

    /// The prefix pattern the lines are classified with.
    pub open spec fn prefix_source(&self) -> Seq<char> {
        self.regex.spec_source()
    }

    /// The pattern of the error heuristic.
    pub open spec fn error_source(&self) -> Seq<char> {
        self.error_regex.spec_source()
    }

    /// The prefixed logs, the error log, the unparsed log, the exit status
    /// and both patterns are as in `o`.
    pub open spec fn same_logs(&self, o: &App) -> bool {
        &&& self.keys@ == o.keys@
        &&& self.buckets@ == o.buckets@
        &&& self.error_messages@ == o.error_messages@
        &&& self.unprefixed_messages@ == o.unprefixed_messages@
        &&& self.exit_code == o.exit_code
        &&& self.prefix_source() == o.prefix_source()
        &&& self.error_source() == o.error_source()
    }

    /// Everything but the prefixed logs is as in `o`.
    pub open spec fn same_others(&self, o: &App) -> bool {
        &&& self.error_messages@ == o.error_messages@
        &&& self.unprefixed_messages@ == o.unprefixed_messages@
        &&& self.selected == o.selected
        &&& self.display_state == o.display_state
        &&& self.exit_code == o.exit_code
        &&& self.prefix_source() == o.prefix_source()
        &&& self.error_source() == o.error_source()
    }

    /// A fresh state: no logs, the first entry selected, messages shown.
    /// Fails when the prefix pattern of `config` does not compile.
    pub fn new(config: &Config) -> (r: Result<App, PatternError>)
        ensures
            regex_compiles(config.prefix@) && regex_compiles(ERROR_PATTERN@) <==> r is Ok,
            r matches Ok(a) ==> {
                &&& a.wf()
                &&& a.keys@.len() == 0
                &&& a.error_messages@ == BucketView::empty()
                &&& a.unprefixed_messages@ == BucketView::empty()
                &&& a.selected == Some(0usize)
                &&& a.display_state == DisplayState::Messages
                &&& a.exit_code is None
                &&& a.prefix_source() == config.prefix@
                &&& a.error_source() == ERROR_PATTERN@
            },
            r matches Err(e) ==> (e.pattern@ == config.prefix@ && !regex_compiles(config.prefix@))
                || (e.pattern@ == ERROR_PATTERN@ && !regex_compiles(ERROR_PATTERN@)),
    {
        let regex = match Pattern::new(config.prefix.clone()) {
            Ok(p) => p,
            Err(e) => return Err(e),
        };
        let error_regex = match Pattern::new(String::from_str(ERROR_PATTERN)) {
            Ok(p) => p,
            Err(e) => return Err(e),
        };
        let r = App {
            keys: Vec::new(),
            buckets: Vec::new(),
            error_messages: Bucket::new(),
            unprefixed_messages: Bucket::new(),
            selected: Some(0),
            display_state: DisplayState::Messages,
            config: config.clone(),
            regex,
            error_regex,
            exit_code: None,
        };
        proof {
            assert(r.key_views() =~= Seq::<Seq<char>>::empty());
        }
        Ok(r)
    }

    /// Records how the supervised process ended.
    pub fn notify_exit(&mut self, exit_code: Option<i32>)
        ensures
            final(self).exit_code == Some(exit_code),
            final(self).keys@ == old(self).keys@,
            final(self).buckets@ == old(self).buckets@,
            final(self).error_messages@ == old(self).error_messages@,
            final(self).unprefixed_messages@ == old(self).unprefixed_messages@,
            final(self).selected == old(self).selected,
            final(self).display_state == old(self).display_state,
            final(self).prefix_source() == old(self).prefix_source(),
            final(self).error_source() == old(self).error_source(),
    {
        self.exit_code = Some(exit_code);
    }

    /// Classifies a raw output line.
    pub fn parse_line(&self, line: &str) -> (r: Line)
        ensures
            classifies(
                r,
                regex_groups(self.prefix_source(), line@),
                trimmed(line@),
                regex_is_match(self.error_source(), line@),
            ),
    {
        let groups = self.regex.groups(line);
        let error_like = self.error_regex.is_match(line);
        classify(groups, trim(line), error_like)
    }

    /// Where `k` stands or belongs among the keys.
    fn find_slot(&self, k: &str) -> (r: usize)
        requires
            self.wf(),
        ensures
            slot(self.key_views(), k@, r as int),
    {
        let mut i: usize = 0;
        while i < self.keys.len() && key_less(self.keys[i].as_str(), k)
            invariant
                self.wf(),
                i <= self.keys@.len(),
                forall|j: int| 0 <= j < i ==> str_lt(#[trigger] self.key_views()[j], k@),
            decreases self.keys@.len() - i,
        {
            i = i + 1;
        }
        proof {
            let kv = self.key_views();
            assert forall|j: int| i <= j < kv.len() implies !str_lt(#[trigger] kv[j], k@) by {
                if j > i && str_lt(kv[j], k@) {
                    assert(str_lt(kv[i as int], kv[j]));
                    lemma_str_lt_transitive(kv[i as int], kv[j], k@);
                }
            }
        }
        i
    }

    /// Files a classified line: into the log of its prefix, created in key
    /// order on the first line of a new prefix, or into the log of lines
    /// without prefix.
    pub fn process_line(&mut self, line: &Line)
        requires
            old(self).wf(),
        ensures
            filed(*old(self), *final(self), *line),
    {
        match &line.prefix {
            Some(p) => {
                let pos = self.find_slot(p.as_str());
                let ghost kv = self.key_views();
                let ghost bv = self.bucket_views();
                if pos < self.keys.len() && self.keys[pos] == *p {
                    self.buckets[pos].add_message(line.duplicate());
                    proof {
                        assert(self.key_views() =~= kv);
                        assert(self.bucket_views() =~= bv.update(pos as int, bv[pos as int].appended(*line)));
                        assert(slot(kv, p@, pos as int));
                    }
                } else {
                    let mut b = Bucket::new();
                    b.add_message(line.duplicate());
                    self.keys.insert(pos, p.clone());
                    self.buckets.insert(pos, b);
                    proof {
                        let nk = kv.insert(pos as int, p@);
                        assert(self.key_views() =~= nk);
                        assert(self.bucket_views() =~= bv.insert(pos as int, BucketView::empty().appended(*line)));
                        if pos < kv.len() {
                            lemma_str_lt_total(kv[pos as int], p@);
                        }
                        assert forall|i: int, j: int| 0 <= i < j < nk.len() implies str_lt(#[trigger] nk[i], #[trigger] nk[j]) by {
                            if j <= pos {
                                // both old keys before the slot, or the new key after one of them
                            } else if i < pos {
                                if j - 1 > pos {
                                    assert(str_lt(kv[pos as int], kv[j - 1]));
                                    lemma_str_lt_transitive(p@, kv[pos as int], kv[j - 1]);
                                }
                                lemma_str_lt_transitive(kv[i], p@, kv[j - 1]);
                            } else if i == pos {
                                if j - 1 > pos {
                                    assert(str_lt(kv[pos as int], kv[j - 1]));
                                    lemma_str_lt_transitive(p@, kv[pos as int], kv[j - 1]);
                                }
                            } else {
                                assert(str_lt(kv[i - 1], kv[j - 1]));
                            }
                        }
                        assert(slot(kv, p@, pos as int));
                    }
                }
            },
            None => {
                self.unprefixed_messages.add_message(line.duplicate());
            },
        }
    }

    /// Files a line of standard error into the error log.
    pub fn process_error(&mut self, error: &str)
        ensures
            final(self).error_messages@.lines.len() == old(self).error_messages@.lines.len() + 1,
            final(self).error_messages@ == old(self).error_messages@.appended(
                final(self).error_messages@.lines.last(),
            ),
            final(self).error_messages@.lines.last().prefix is None,
            final(self).error_messages@.lines.last().message@ == error@,
            !final(self).error_messages@.lines.last().has_error,
            final(self).keys@ == old(self).keys@,
            final(self).buckets@ == old(self).buckets@,
            final(self).unprefixed_messages@ == old(self).unprefixed_messages@,
            final(self).selected == old(self).selected,
            final(self).display_state == old(self).display_state,
            final(self).exit_code == old(self).exit_code,
            final(self).prefix_source() == old(self).prefix_source(),
            final(self).error_source() == old(self).error_source(),
    {
        self.error_messages.add_message(Line::without_prefix(String::from_str(error)));
    }

    /// Classifies a raw line of standard output and files it.
    pub fn process_output(&mut self, raw: &str)
        requires
            old(self).wf(),
        ensures
            final(self).wf(),
            exists|l: Line| {
                &&& classifies(
                    l,
                    regex_groups(old(self).prefix_source(), raw@),
                    trimmed(raw@),
                    regex_is_match(old(self).error_source(), raw@),
                )
                &&& #[trigger] filed(*old(self), *final(self), l)
            },
    {
        let l = self.parse_line(raw);
        self.process_line(&l);
    }

    /// The current log changed by `f` as the view changes by `g`; all else kept.
    pub open spec fn current_updated(&self, o: &App, g: spec_fn(BucketView) -> BucketView) -> bool {
        &&& self.wf()
        &&& self.key_views() == o.key_views()
        &&& self.same_others(o)
        &&& match o.selected_index() {
            Some(i) => self.bucket_views() == o.bucket_views().update(i, g(o.bucket_views()[i])),
            None => self.bucket_views() == o.bucket_views(),
        }
    }

    fn current_index(&self) -> (r: Option<usize>)
        ensures
            match r {
                Some(i) => self.selected_index() == Some(i as int),
                None => self.selected_index() is None,
            },
    {
        match self.selected {
            Some(i) => if i < self.keys.len() {
                Some(i)
            } else {
                None
            },
            None => None,
        }
    }

    /// Scrolls the selected log one line towards older lines.
    pub fn scroll_up(&mut self, height: usize)
        requires
            old(self).wf(),
        ensures
            final(self).current_updated(&*old(self), |b: BucketView| b.scrolled_up(height as nat)),
    {
        if let Some(i) = self.current_index() {
            self.buckets[i].scroll_up(height);
            proof {
                assert(self.key_views() =~= old(self).key_views());
            }
        }
        proof {
            if let Some(i) = old(self).selected_index() {
                assert(self.bucket_views() =~= old(self).bucket_views().update(
                    i,
                    old(self).bucket_views()[i].scrolled_up(height as nat),
                ));
            }
        }
    }

    /// Scrolls the selected log one line towards newer lines.
    pub fn scroll_down(&mut self, height: usize)
        requires
            old(self).wf(),
        ensures
            final(self).current_updated(&*old(self), |b: BucketView| b.scrolled_down(height as nat)),
    {
        if let Some(i) = self.current_index() {
            self.buckets[i].scroll_down(height);
            proof {
                assert(self.key_views() =~= old(self).key_views());
            }
        }
        proof {
            if let Some(i) = old(self).selected_index() {
                assert(self.bucket_views() =~= old(self).bucket_views().update(
                    i,
                    old(self).bucket_views()[i].scrolled_down(height as nat),
                ));
            }
        }
    }

    /// Puts the selected log back on its newest lines.
    pub fn scroll_reset(&mut self)
        requires
            old(self).wf(),
        ensures
            final(self).current_updated(&*old(self), |b: BucketView| b.with_scroll(None)),
    {
        if let Some(i) = self.current_index() {
            self.buckets[i].scroll_reset();
            proof {
                assert(self.key_views() =~= old(self).key_views());
            }
        }
        proof {
            if let Some(i) = old(self).selected_index() {
                assert(self.bucket_views() =~= old(self).bucket_views().update(
                    i,
                    old(self).bucket_views()[i].with_scroll(None),
                ));
            }
        }
    }

    /// Empties the selected log.
    pub fn clear_current_bucket(&mut self)
        requires
            old(self).wf(),
        ensures
            final(self).current_updated(&*old(self), |b: BucketView| BucketView::empty()),
    {
        if let Some(i) = self.current_index() {
            self.buckets[i].clear_all_messages();
            proof {
                assert(self.key_views() =~= old(self).key_views());
            }
        }
        proof {
            if let Some(i) = old(self).selected_index() {
                assert(self.bucket_views() =~= old(self).bucket_views().update(i, BucketView::empty()));
            }
        }
    }

    /// Empties every prefixed log; the prefixes stay.
    pub fn clear_all_buckets(&mut self)
        requires
            old(self).wf(),
        ensures
            final(self).wf(),
            final(self).key_views() == old(self).key_views(),
            final(self).same_others(&*old(self)),
            final(self).bucket_views() == Seq::new(old(self).buckets@.len(), |i: int| BucketView::empty()),
    {
        let mut i: usize = 0;
        while i < self.buckets.len()
            invariant
                self.wf(),
                i <= self.buckets@.len(),
                self.buckets@.len() == old(self).buckets@.len(),
                self.keys@ == old(self).keys@,
                self.same_others(&*old(self)),
                forall|j: int| 0 <= j < i ==> #[trigger] self.buckets@[j]@ == BucketView::empty(),
            decreases self.buckets@.len() - i,
        {
            self.buckets[i].clear_all_messages();
            proof {
                assert(self.key_views() =~= old(self).key_views());
            }
            i = i + 1;
        }
        assert(self.bucket_views() =~= Seq::new(old(self).buckets@.len(), |i: int| BucketView::empty()));
    }

    /// Shows the requested log, or the prefixed messages when it already shows.
    pub fn set_display_state(&mut self, state: DisplayState)
        ensures
            final(self).display_state == old(self).display_state.spec_toggled(state),
            final(self).same_logs(&*old(self)),
            final(self).selected == old(self).selected,
    {
        self.display_state = self.display_state.toggled(state);
    }

    /// Shows the next log in the cycle messages, errors, unparsed lines.
    pub fn cycle_display_state(&mut self)
        ensures
            final(self).display_state == old(self).display_state.spec_cycled(),
            final(self).same_logs(&*old(self)),
            final(self).selected == old(self).selected,
    {
        self.display_state = self.display_state.cycled();
    }

    /// Selects the next prefix, after the last the first.
    pub fn next_prefix(&mut self)
        requires
            old(self).wf(),
        ensures
            final(self).wf(),
            final(self).selected == if old(self).keys@.len() == 0 {
                old(self).selected
            } else {
                match old(self).selected {
                    Some(i) => Some((if i + 1 == old(self).keys@.len() { 0 } else { i + 1 }) as usize),
                    None => None,
                }
            },
            final(self).same_logs(&*old(self)),
            final(self).display_state == old(self).display_state,
    {
        let n = self.keys.len();
        if n == 0 {
            return;
        }
        self.selected = match self.selected {
            Some(i) => if i + 1 == n {
                Some(0)
            } else {
                Some(i + 1)
            },
            None => None,
        };
    }

    /// Selects the previous prefix, before the first the last.
    pub fn previous_prefix(&mut self)
        requires
            old(self).wf(),
        ensures
            final(self).wf(),
            final(self).selected == if old(self).keys@.len() == 0 {
                old(self).selected
            } else {
                match old(self).selected {
                    Some(i) => Some((if i == 0 { old(self).keys@.len() - 1 } else { i - 1 }) as usize),
                    None => None,
                }
            },
            final(self).same_logs(&*old(self)),
            final(self).display_state == old(self).display_state,
    {
        let n = self.keys.len();
        if n == 0 {
            return;
        }
        self.selected = match self.selected {
            Some(i) => if i == 0 {
                Some(n - 1)
            } else {
                Some(i - 1)
            },
            None => None,
        };
    }

    /// The prefixes with their logs, in key order.
    pub fn get_buckets(&self) -> (r: Vec<(&String, &Bucket)>)
        requires
            self.wf(),
        ensures
            r@.len() == self.keys@.len(),
            forall|i: int| 0 <= i < r@.len() ==> (#[trigger] r@[i]).0@ == self.key_views()[i]
                && r@[i].1@ == self.bucket_views()[i],
            strictly_sorted(r@.map_values(|e: (&String, &Bucket)| e.0@)),
    {
        let mut r: Vec<(&String, &Bucket)> = Vec::new();
        let mut i: usize = 0;
        while i < self.keys.len()
            invariant
                self.wf(),
                i <= self.keys@.len(),
                r@.len() == i,
                forall|j: int| 0 <= j < i ==> (#[trigger] r@[j]).0@ == self.key_views()[j]
                    && r@[j].1@ == self.bucket_views()[j],
            decreases self.keys@.len() - i,
        {
            r.push((&self.keys[i], &self.buckets[i]));
            i = i + 1;
        }
        assert(r@.map_values(|e: (&String, &Bucket)| e.0@) =~= self.key_views());
        r
    }

    /// The selected prefix, if the selection points at a log.
    pub fn get_selected_prefix(&self) -> (r: Option<String>)
        ensures
            match self.selected_index() {
                Some(i) => r matches Some(p) && p@ == self.key_views()[i],
                None => r is None,
            },
    {
        match self.current_index() {
            Some(i) => Some(self.keys[i].clone()),
            None => None,
        }
    }

    /// The selected log, if the selection points at one.
    pub fn get_current_bucket(&self) -> (r: Option<&Bucket>)
        requires
            self.wf(),
        ensures
            match self.selected_index() {
                Some(i) => r matches Some(b) && b@ == self.bucket_views()[i],
                None => r is None,
            },
    {
        match self.current_index() {
            Some(i) => Some(&self.buckets[i]),
            None => None,
        }
    }

    /// The messages in the window of the selected log for a pane of `count`
    /// rows (two of them are its border, so no row is left below two), which
    /// acknowledges that log.
    pub fn get_current_messages(&mut self, count: usize) -> (r: Vec<String>)
        requires
            old(self).wf(),
        ensures
            final(self).current_updated(&*old(self), |b: BucketView| b.acknowledged()),
            match old(self).selected_index() {
                Some(i) => r@.map_values(|s: String| s@) == old(self).bucket_views()[i].window(
                    if count >= 2 {
                        (count - 2) as nat
                    } else {
                        0
                    },
                ).map_values(|l: Line| l.message@),
                None => r@.len() == 0,
            },
    {
        let mut r: Vec<String> = Vec::new();
        if let Some(i) = self.current_index() {
            let rows = if count >= 2 {
                count - 2
            } else {
                0
            };
            let lines = self.buckets[i].get_messages(rows);
            proof {
                assert(self.key_views() =~= old(self).key_views());
                assert(self.bucket_views() =~= old(self).bucket_views().update(
                    i as int,
                    old(self).bucket_views()[i as int].acknowledged(),
                ));
            }
            let mut j: usize = 0;
            while j < lines.len()
                invariant
                    j <= lines@.len(),
                    r@.len() == j,
                    forall|k: int| 0 <= k < j ==> (#[trigger] r@[k])@ == lines@[k].message@,
                decreases lines@.len() - j,
            {
                r.push(lines[j].message.clone());
                j = j + 1;
            }
            assert(r@.map_values(|s: String| s@) =~= lines@.map_values(|l: Line| l.message@));
        } else {
            proof {
                assert(self.bucket_views() =~= old(self).bucket_views());
            }
        }
        r
    }


    /// Whether log `j` counts as needing attention in this pass.
    fn wants_attention(&self, j: usize, errors: bool) -> (r: bool)
        requires
            j < self.buckets@.len(),
        ensures
            r == flagged(self.bucket_views()[j as int], errors),
    {
        if errors {
            self.buckets[j].new_errors > 0
        } else {
            self.buckets[j].new_messages > 0
        }
    }

    /// Walks the other logs once, starting after `start` and wrapping
    /// around, and returns the first that needs attention in this pass.
    fn scan_from(&self, start: usize, errors: bool) -> (r: Option<usize>)
        requires
            self.wf(),
            start < self.buckets@.len(),
        ensures
            match scan(self.bucket_views(), start as int, (self.buckets@.len() - 1) as nat, errors) {
                Some(j) => r == Some(j as usize),
                None => r is None,
            },
    {
        let n = self.buckets.len();
        let mut at = start;
        let mut remaining = n - 1;
        while remaining > 0
            invariant
                n == self.buckets@.len(),
                at < n,
                scan(self.bucket_views(), start as int, (n - 1) as nat, errors) == scan(
                    self.bucket_views(),
                    at as int,
                    remaining as nat,
                    errors,
                ),
            decreases remaining,
        {
            let j = if at + 1 >= n {
                0
            } else {
                at + 1
            };
            if self.wants_attention(j, errors) {
                return Some(j);
            }
            at = j;
            remaining = remaining - 1;
        }
        None
    }

    /// Selects the next log with unread error-like lines, else the next with
    /// unread lines, looking at the other logs in order after the selection;
    /// the selection stays when no log needs attention.
    pub fn next_bucket(&mut self)
        requires
            old(self).wf(),
        ensures
            final(self).wf(),
            final(self).selected == match attention_target(old(self).bucket_views(), old(self).selected) {
                Some(j) => Some(j as usize),
                None => old(self).selected,
            },
            final(self).same_logs(&*old(self)),
            final(self).display_state == old(self).display_state,
    {
        let n = self.buckets.len();
        if n == 0 {
            return;
        }
        let start = match self.selected {
            Some(i) => i % n,
            None => 0,
        };
        match self.scan_from(start, true) {
            Some(j) => {
                self.selected = Some(j);
            },
            None => match self.scan_from(start, false) {
                Some(j) => {
                    self.selected = Some(j);
                },
                None => {},
            },
        }
        proof {
            lemma_scan_in_range(old(self).bucket_views(), start as int, (n - 1) as nat, true);
            lemma_scan_in_range(old(self).bucket_views(), start as int, (n - 1) as nat, false);
            lemma_scan_is_first_flagged(old(self).bucket_views(), start as int, true);
            lemma_scan_is_first_flagged(old(self).bucket_views(), start as int, false);
        }
    }


    /// Where the selected log is exported and the text written there: the
    /// file `/tmp/<prefix>.log`, with `_` for each of `@ - / \ :` in the
    /// prefix, holding every line of the log as rendered, one per line.
    /// None when nothing is selected.
    pub fn export_target(&self) -> (r: Option<(String, String)>)
        requires
            self.wf(),
        ensures
            r is Some <==> self.selected_index() is Some && regex_compiles(FILE_NAME_UNSAFE@),
            r matches Some((path, text)) ==> {
                let i = self.selected_index()->0;
                &&& path@ == export_path(self.key_views()[i])
                &&& text@ == rendered_lines(self.bucket_views()[i].lines)
            },
    {
        let i = match self.current_index() {
            Some(i) => i,
            None => return None,
        };
        let unsafe_chars = match Pattern::new(String::from_str(FILE_NAME_UNSAFE)) {
            Ok(p) => p,
            Err(_) => return None,
        };
        let name = unsafe_chars.replace_all(self.keys[i].as_str(), "_");
        let mut path = String::from_str("/tmp/");
        path.append(name.as_str());
        path.append(".log");
        proof {
            reveal_strlit("_");
            reveal_strlit("/tmp/");
            reveal_strlit(".log");
        }
        let lines = &self.buckets[i].messages;
        let mut text = String::new();
        let mut j: usize = 0;
        while j < lines.len()
            invariant
                j <= lines@.len(),
                text@ == rendered_lines(lines@.subrange(0, j as int)),
            decreases lines@.len() - j,
        {
            proof {
                reveal_strlit("\n");
                assert(lines@.subrange(0, j + 1).drop_last() =~= lines@.subrange(0, j as int));
            }
            if j > 0 {
                text.append("\n");
            } else {
                assert(text@ + lines@[0].rendered() =~= lines@[0].rendered());
            }
            let row = lines[j].render();
            text.append(row.as_str());
            j = j + 1;
        }
        assert(lines@.subrange(0, j as int) =~= lines@);
        Some((path, text))
    }


    /// Carries out one action of the operator; true when it asks to quit.
    /// Exporting changes nothing here: the caller writes the file that
    /// [`App::export_target`] names.
    pub fn apply(&mut self, action: Action, height: usize) -> (quit: bool)
        requires
            old(self).wf(),
        ensures
            final(self).wf(),
            quit == (action == Action::Quit),
            action == Action::Quit || action == Action::Export ==> {
                &&& final(self).key_views() == old(self).key_views()
                &&& final(self).bucket_views() == old(self).bucket_views()
                &&& final(self).same_others(&*old(self))
            },
            action == Action::ScrollUp ==> final(self).current_updated(
                &*old(self),
                |b: BucketView| b.scrolled_up(height as nat),
            ),
            action == Action::ScrollDown ==> final(self).current_updated(
                &*old(self),
                |b: BucketView| b.scrolled_down(height as nat),
            ),
            action == Action::ScrollReset ==> final(self).current_updated(
                &*old(self),
                |b: BucketView| b.with_scroll(None),
            ),
            action == Action::ClearCurrent ==> final(self).current_updated(
                &*old(self),
                |b: BucketView| BucketView::empty(),
            ),
            action == Action::ClearAll ==> {
                &&& final(self).key_views() == old(self).key_views()
                &&& final(self).same_others(&*old(self))
                &&& final(self).bucket_views() == Seq::new(
                    old(self).buckets@.len(),
                    |i: int| BucketView::empty(),
                )
            },
            action == Action::ShowMessages ==> final(self).display_state
                == old(self).display_state.spec_toggled(DisplayState::Messages),
            action == Action::ShowErrors ==> final(self).display_state
                == old(self).display_state.spec_toggled(DisplayState::Errors),
            action == Action::ShowParseErrors ==> final(self).display_state
                == old(self).display_state.spec_toggled(DisplayState::ParseErrors),
            action == Action::CycleDisplay ==> final(self).display_state
                == old(self).display_state.spec_cycled(),
            action == Action::NextPrefix ==> final(self).selected == if old(self).keys@.len() == 0 {
                old(self).selected
            } else {
                match old(self).selected {
                    Some(i) => Some((if i + 1 == old(self).keys@.len() { 0 } else { i + 1 }) as usize),
                    None => None,
                }
            },
            action == Action::PreviousPrefix ==> final(self).selected == if old(self).keys@.len()
                == 0 {
                old(self).selected
            } else {
                match old(self).selected {
                    Some(i) => Some((if i == 0 { old(self).keys@.len() - 1 } else { i - 1 }) as usize),
                    None => None,
                }
            },
            action == Action::NextAttention ==> final(self).selected == match attention_target(
                old(self).bucket_views(),
                old(self).selected,
            ) {
                Some(j) => Some(j as usize),
                None => old(self).selected,
            },
            action == Action::ShowMessages || action == Action::ShowErrors || action
                == Action::ShowParseErrors || action == Action::CycleDisplay ==> {
                &&& final(self).same_logs(&*old(self))
                &&& final(self).selected == old(self).selected
            },
            action == Action::NextPrefix || action == Action::PreviousPrefix || action
                == Action::NextAttention ==> {
                &&& final(self).same_logs(&*old(self))
                &&& final(self).display_state == old(self).display_state
            },
    {
        match action {
            Action::Quit => {
                return true;
            },
            Action::NextPrefix => self.next_prefix(),
            Action::PreviousPrefix => self.previous_prefix(),
            Action::ScrollUp => self.scroll_up(height),
            Action::ScrollDown => self.scroll_down(height),
            Action::ScrollReset => self.scroll_reset(),
            Action::ShowMessages => self.set_display_state(DisplayState::Messages),
            Action::ShowErrors => self.set_display_state(DisplayState::Errors),
            Action::ShowParseErrors => self.set_display_state(DisplayState::ParseErrors),
            Action::CycleDisplay => self.cycle_display_state(),
            Action::NextAttention => self.next_bucket(),
            Action::ClearCurrent => self.clear_current_bucket(),
            Action::ClearAll => self.clear_all_buckets(),
            Action::Export => {},
        }
        false
    }

}

/// `after` is `before` with `l` filed as [`App::process_line`] files it.
pub open spec fn filed(before: App, after: App, l: Line) -> bool {
    &&& after.wf()
    &&& after.error_messages@ == before.error_messages@
    &&& after.selected == before.selected
    &&& after.display_state == before.display_state
    &&& after.exit_code == before.exit_code
    &&& after.prefix_source() == before.prefix_source()
    &&& after.error_source() == before.error_source()
    &&& match l.prefix {
        None => {
            &&& after.unprefixed_messages@ == before.unprefixed_messages@.appended(l)
            &&& after.key_views() == before.key_views()
            &&& after.bucket_views() == before.bucket_views()
        },
        Some(p) => {
            &&& after.unprefixed_messages@ == before.unprefixed_messages@
            &&& exists|pos: int| {
                &&& #[trigger] slot(before.key_views(), p@, pos)
                &&& if pos < before.keys@.len() && before.key_views()[pos] == p@ {
                    &&& after.key_views() == before.key_views()
                    &&& after.bucket_views() == before.bucket_views().update(
                        pos,
                        before.bucket_views()[pos].appended(l),
                    )
                } else {
                    &&& after.key_views() == before.key_views().insert(pos, p@)
                    &&& after.bucket_views() == before.bucket_views().insert(
                        pos,
                        BucketView::empty().appended(l),
                    )
                }
            }
        },
    }
}

/// Whether a log needs attention: unread error-like lines in the first
/// pass, unread lines in the second.
pub open spec fn flagged(b: BucketView, errors: bool) -> bool {
    if errors {
        b.new_errors > 0
    } else {
        b.new_messages > 0
    }
}

/// The index after `i` among `n`, wrapping to zero.
pub open spec fn step(i: int, n: int) -> int {
    if i + 1 >= n {
        0
    } else {
        i + 1
    }
}

/// The first flagged log among the `remaining` ones after `at`.
pub open spec fn scan(views: Seq<BucketView>, at: int, remaining: nat, errors: bool) -> Option<int>
    decreases remaining,
{
    if remaining == 0 {
        None
    } else {
        let j = step(at, views.len() as int);
        if flagged(views[j], errors) {
            Some(j)
        } else {
            scan(views, j, (remaining - 1) as nat, errors)
        }
    }
}

/// The `d`-th log after `s` among `n`, wrapping around.
pub open spec fn after(s: int, d: int, n: int) -> int {
    (s + d) % n
}

/// The first log among the other logs in order after `s` that is flagged
/// in this pass: `(s + d) % n` for the least `d` in `1..n` that has it.
pub open spec fn first_flagged(views: Seq<BucketView>, s: int, errors: bool) -> Option<int> {
    let n = views.len() as int;
    if exists|d: int| 1 <= d < n && #[trigger] flagged(views[after(s, d, n)], errors) {
        let d = choose|d: int|
            1 <= d < n && #[trigger] flagged(views[after(s, d, n)], errors) && forall|e: int|
                1 <= e < d ==> !flagged(#[trigger] views[after(s, e, n)], errors);
        Some(after(s, d, n))
    } else {
        None
    }
}

/// The log that the attention jump selects: over the other logs in order
/// after the selection (or after the first log when nothing is selected),
/// the first with unread error-like lines, else the first with unread lines.
pub open spec fn attention_target(views: Seq<BucketView>, selected: Option<usize>) -> Option<int> {
    if views.len() == 0 {
        None
    } else {
        let s = match selected {
            Some(i) => i as int % views.len() as int,
            None => 0,
        };
        match first_flagged(views, s, true) {
            Some(j) => Some(j),
            None => first_flagged(views, s, false),
        }
    }
}

proof fn lemma_after_step(s: int, d: int, n: int)
    requires
        0 <= s < n,
        0 <= d < n,
    ensures
        0 <= after(s, d, n) < n,
        step(after(s, d, n), n) == after(s, d + 1, n),
{
    if s + d < n {
        assert((s + d) % n == s + d) by (nonlinear_arith)
            requires 0 <= s + d < n;
    } else {
        assert((s + d) % n == s + d - n) by (nonlinear_arith)
            requires n <= s + d < 2 * n;
    }
    if s + d + 1 < n {
        assert((s + d + 1) % n == s + d + 1) by (nonlinear_arith)
            requires 0 <= s + d + 1 < n;
    } else {
        assert((s + d + 1) % n == s + d + 1 - n) by (nonlinear_arith)
            requires n <= s + d + 1 < 2 * n;
    }
}

/// The step-by-step scan from the `d0`-th log after `s` finds the first
/// flagged log among the following ones.
proof fn lemma_scan_first(views: Seq<BucketView>, s: int, d0: int, errors: bool)
    requires
        0 <= s < views.len(),
        0 <= d0 < views.len(),
    ensures
        ({
            let n = views.len() as int;
            match scan(views, after(s, d0, n), (n - 1 - d0) as nat, errors) {
                Some(j) => exists|d: int|
                    d0 < d < n && j == after(s, d, n) && flagged(views[after(s, d, n)], errors)
                        && forall|e: int|
                        d0 < e < d ==> !flagged(#[trigger] views[after(s, e, n)], errors),
                None => forall|e: int|
                    d0 < e < n ==> !flagged(#[trigger] views[after(s, e, n)], errors),
            }
        }),
    decreases views.len() - d0,
{
    let n = views.len() as int;
    if d0 + 1 < n {
        lemma_after_step(s, d0, n);
        lemma_after_step(s, d0 + 1, n);
        lemma_scan_first(views, s, d0 + 1, errors);
        let j = after(s, d0 + 1, n);
        if flagged(views[j], errors) {
            assert(d0 < d0 + 1 < n && j == after(s, d0 + 1, n));
        } else {
            match scan(views, j, (n - 1 - (d0 + 1)) as nat, errors) {
                Some(k) => {
                    let d = choose|d: int|
                        d0 + 1 < d < n && k == after(s, d, n) && flagged(views[after(s, d, n)], errors)
                            && forall|e: int|
                            d0 + 1 < e < d ==> !flagged(#[trigger] views[after(s, e, n)], errors);
                    assert forall|e: int| d0 < e < d implies !flagged(
                        #[trigger] views[after(s, e, n)],
                        errors,
                    ) by {
                        if e == d0 + 1 {
                        }
                    }
                },
                None => {
                    assert forall|e: int| d0 < e < n implies !flagged(
                        #[trigger] views[after(s, e, n)],
                        errors,
                    ) by {
                        if e == d0 + 1 {
                        }
                    }
                },
            }
        }
    }
}

/// The scan over all other logs after `s` gives [`first_flagged`].
proof fn lemma_scan_is_first_flagged(views: Seq<BucketView>, s: int, errors: bool)
    requires
        0 <= s < views.len(),
    ensures
        scan(views, s, (views.len() - 1) as nat, errors) == first_flagged(views, s, errors),
{
    let n = views.len() as int;
    assert(after(s, 0, n) == s) by (nonlinear_arith)
        requires 0 <= s < n, after(s, 0, n) == (s + 0) % n;
    lemma_scan_first(views, s, 0, errors);
    match scan(views, s, (n - 1) as nat, errors) {
        Some(j) => {
            let d = choose|d: int|
                0 < d < n && j == after(s, d, n) && flagged(views[after(s, d, n)], errors) && forall|e: int|
                    0 < e < d ==> !flagged(#[trigger] views[after(s, e, n)], errors);
            let c = choose|c: int|
                1 <= c < n && #[trigger] flagged(views[after(s, c, n)], errors) && forall|e: int|
                    1 <= e < c ==> !flagged(#[trigger] views[after(s, e, n)], errors);
            if c < d {
                assert(!flagged(views[after(s, c, n)], errors));
            }
            if d < c {
                assert(!flagged(views[after(s, d, n)], errors));
            }
        },
        None => {},
    }
}

pub proof fn lemma_scan_in_range(views: Seq<BucketView>, at: int, remaining: nat, errors: bool)
    requires
        0 <= at < views.len(),
    ensures
        scan(views, at, remaining, errors) matches Some(j) ==> 0 <= j < views.len(),
    decreases remaining,
{
    if remaining > 0 {
        lemma_scan_in_range(views, step(at, views.len() as int), (remaining - 1) as nat, errors);
    }
}

/// The export file of the log with prefix `key`.
pub open spec fn export_path(key: Seq<char>) -> Seq<char> {
    "/tmp/"@ + regex_replaced(FILE_NAME_UNSAFE@, key, "_"@) + ".log"@
}

/// The rendered lines, separated by line breaks.
pub open spec fn rendered_lines(lines: Seq<Line>) -> Seq<char>
    decreases lines.len(),
{
    if lines.len() == 0 {
        Seq::empty()
    } else if lines.len() == 1 {
        lines[0].rendered()
    } else {
        rendered_lines(lines.drop_last()) + seq!['\n'] + lines.last().rendered()
    }
}

} // verus!
