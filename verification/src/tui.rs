//! The state behind the two progress displays: which listing is pending,
//! running, done or failed, which slice of them is visible, and the texts
//! of the progress lines.  Everything here is plain state and text; the
//! terminal drawing itself stays outside the library and asks this state
//! what to draw.

use vstd::prelude::*;

use crate::text::{spec_digits, str_eq, usize_to_string};

verus! {

/// How many listing lines the sliding window shows at most.
pub open spec fn window_size() -> int {
    15
}

/// The progress display of a geocoding pass.
#[derive(Clone, Copy, PartialEq, Eq, Structural, Debug)]
pub struct GeocodingTUI {
    pub total_properties: usize,
    pub geocoded_count: usize,
    pub failed_count: usize,
    pub current_index: usize,
}

impl GeocodingTUI {
    /// The counts add up and stay within the total.
    pub open spec fn wf(self) -> bool {
        self.geocoded_count + self.failed_count == self.current_index
            && self.current_index <= self.total_properties
    }

    /// A fresh display over `total_properties` pending items.
    pub fn new(total_properties: usize) -> (r: GeocodingTUI)
        ensures
            r.total_properties == total_properties,
            r.geocoded_count == 0,
            r.failed_count == 0,
            r.current_index == 0,
            r.wf(),
    {
        GeocodingTUI { total_properties, geocoded_count: 0, failed_count: 0, current_index: 0 }
    }

    /// Records the outcome of one item.
    pub fn update_progress(&mut self, geocoded: bool)
        requires
            old(self).wf(),
            old(self).current_index < old(self).total_properties,
        ensures
            final(self).wf(),
            final(self).total_properties == old(self).total_properties,
            final(self).current_index == old(self).current_index + 1,
            final(self).geocoded_count == old(self).geocoded_count + (if geocoded {
                1int
            } else {
                0int
            }),
            final(self).failed_count == old(self).failed_count + (if geocoded {
                0int
            } else {
                1int
            }),
    {
        self.current_index += 1;
        if geocoded {
            self.geocoded_count += 1;
        } else {
            self.failed_count += 1;
        }
    }

    /// How many items still wait.
    pub fn remaining(&self) -> (r: usize)
        requires
            self.wf(),
        ensures
            r == self.total_properties - self.current_index,
    {
        self.total_properties - self.current_index
    }
}

/// Where one listing of the current run stands.
#[derive(Clone, Copy, PartialEq, Eq, Structural, Debug)]
pub enum PropertyStatus {
    Pending,
    InProgress,
    Completed,
    Failed,
}

/// One listing line of the display.
#[derive(Debug)]
pub struct PropertyLineState {
    pub url: String,
    pub status: PropertyStatus,
}

/// The line's listing is finished, well or badly.
pub open spec fn spec_line_done(l: PropertyLineState) -> bool {
    l.status == PropertyStatus::Completed || l.status == PropertyStatus::Failed
}

/// How many lines of `s` are finished.
pub open spec fn count_done(s: Seq<PropertyLineState>) -> int {
    s.filter(|l: PropertyLineState| spec_line_done(l)).len() as int
}

/// How many lines of `s` carry the given status.
pub open spec fn count_status(s: Seq<PropertyLineState>, st: PropertyStatus) -> int {
    s.filter(|l: PropertyLineState| l.status == st).len() as int
}

/// The position of the first line for `url`, or `-1`.
pub open spec fn find_line_index(s: Seq<PropertyLineState>, url: Seq<char>) -> int
    decreases s.len(),
{
    if s.len() == 0 {
        -1
    } else if s[0].url@ == url {
        0
    } else {
        let r = find_line_index(s.skip(1), url);
        if r == -1 {
            -1
        } else {
            1 + r
        }
    }
}

pub proof fn lemma_find_line_index_props(s: Seq<PropertyLineState>, url: Seq<char>)
    ensures
        -1 <= find_line_index(s, url) < s.len(),
        find_line_index(s, url) >= 0 ==> s[find_line_index(s, url)].url@ == url,
        find_line_index(s, url) == -1 ==> forall|i: int| 0 <= i < s.len() ==> s[i].url@ != url,
        forall|i: int| 0 <= i < find_line_index(s, url) ==> s[i].url@ != url,
    decreases s.len(),
{
    if s.len() == 0 {
    } else if s[0].url@ == url {
    } else {
        lemma_find_line_index_props(s.skip(1), url);
        assert(forall|i: int| 1 <= i < s.len() ==> s[i] == s.skip(1)[i - 1]);
    }
}

/// `l` with its status changed.
pub open spec fn with_status(l: PropertyLineState, st: PropertyStatus) -> PropertyLineState {
    PropertyLineState { status: st, ..l }
}

/// The position where a window sliding forward starts: the position of the
/// third finished line counting back from `i`, or `0` when fewer are
/// finished.
pub open spec fn back_scan(s: Seq<PropertyLineState>, i: int, need: int) -> int
    decreases i + 1,
{
    if i < 0 {
        0
    } else if spec_line_done(s[i]) {
        if need <= 1 {
            i
        } else {
            back_scan(s, i - 1, need - 1)
        }
    } else {
        back_scan(s, i - 1, need)
    }
}

/// The progress display of a crawl run.
#[derive(Debug)]
pub struct ScraperTUI {
    pub initial_lines_printed: usize,
    pub property_lines: Vec<PropertyLineState>,
    pub current_property_index: Option<usize>,
    pub total_properties_in_db: usize,
    pub new_count: usize,
    pub known_count: usize,
    pub is_refresh_mode: bool,
    pub progress_bar_printed: bool,
    pub visible_lines: usize,
    pub visible_start: usize,
    pub visible_end: usize,
}

impl ScraperTUI {
    /// The window bounds stay inside the lines, and the run stays small
    /// enough for the percentage arithmetic.
    pub open spec fn wf(self) -> bool {
        &&& self.visible_start <= self.visible_end <= self.property_lines@.len()
        &&& self.visible_lines <= self.property_lines@.len()
        &&& self.property_lines@.len() <= 100000
        &&& match self.current_property_index {
            Some(i) => i < self.property_lines@.len(),
            None => true,
        }
    }

    /// A fresh display with nothing to show yet.
    pub fn new() -> (r: ScraperTUI)
        ensures
            r.wf(),
            r.property_lines@.len() == 0,
            r.current_property_index is None,
            r.total_properties_in_db == 0,
            r.new_count == 0,
            r.known_count == 0,
            !r.is_refresh_mode,
            !r.progress_bar_printed,
            r.visible_lines == 0,
            r.visible_start == 0,
            r.visible_end == 0,
            r.initial_lines_printed == 0,
    {
        ScraperTUI {
            initial_lines_printed: 0,
            property_lines: Vec::new(),
            current_property_index: None,
            total_properties_in_db: 0,
            new_count: 0,
            known_count: 0,
            is_refresh_mode: false,
            progress_bar_printed: false,
            visible_lines: 0,
            visible_start: 0,
            visible_end: 0,
        }
    }

    /// Records the size of the loaded catalog for the summary line.
    pub fn show_summary(&mut self, total_properties: usize)
        requires
            old(self).wf(),
            old(self).initial_lines_printed < 100000,
        ensures
            final(self).wf(),
            *final(self) == (ScraperTUI {
                total_properties_in_db: total_properties,
                initial_lines_printed: (old(self).initial_lines_printed + 1) as usize,
                ..*old(self)
            }),
    {
        self.total_properties_in_db = total_properties;
        self.initial_lines_printed += 1;
    }

    /// Records the discovery outcome: so many new, so many already known.
    pub fn update_listing_status(&mut self, new_count: usize, known_count: usize)
        requires
            old(self).wf(),
            old(self).initial_lines_printed < 100000,
        ensures
            final(self).wf(),
            *final(self) == (ScraperTUI {
                new_count,
                known_count,
                is_refresh_mode: false,
                initial_lines_printed: (old(self).initial_lines_printed + 1) as usize,
                ..*old(self)
            }),
    {
        self.new_count = new_count;
        self.known_count = known_count;
        self.is_refresh_mode = false;
        self.initial_lines_printed += 1;
    }

    /// Records the refresh selection outcome: so many new, so many to be
    /// refreshed.
    pub fn update_listing_status_refresh(&mut self, new_count: usize, refresh_count: usize)
        requires
            old(self).wf(),
            old(self).initial_lines_printed < 100000,
        ensures
            final(self).wf(),
            *final(self) == (ScraperTUI {
                new_count,
                known_count: refresh_count,
                is_refresh_mode: true,
                initial_lines_printed: (old(self).initial_lines_printed + 1) as usize,
                ..*old(self)
            }),
    {
        self.new_count = new_count;
        self.known_count = refresh_count;
        self.is_refresh_mode = true;
        self.initial_lines_printed += 1;
    }

    /// Adds a pending listing line; returns whether the line falls into the
    /// initial window and is printed now.
    pub fn add_property(&mut self, url: String) -> (printed: bool)
        requires
            old(self).wf(),
            old(self).property_lines@.len() < 100000,
        ensures
            final(self).wf(),
            final(self).property_lines@ == old(self).property_lines@.push(
                PropertyLineState { url, status: PropertyStatus::Pending },
            ),
            printed == (old(self).property_lines@.len() < final(self).visible_end),
            printed ==> final(self).visible_lines == old(self).visible_lines + 1,
    {
        let line = PropertyLineState { url, status: PropertyStatus::Pending };
        self.property_lines.push(line);
        let new_index = self.property_lines.len() - 1;
        if self.visible_end == 0 || new_index < 15 {
            let candidate = new_index + 1;
            self.visible_end = if candidate < 15 {
                candidate
            } else {
                15
            };
            if self.visible_start > self.visible_end {
                self.visible_start = 0;
            }
        }
        if new_index < self.visible_end {
            self.visible_lines += 1;
            true
        } else {
            false
        }
    }

    /// Sets the initial window once all lines are added; returns whether
    /// the progress bar is printed now.
    pub fn show_initial_progress_bar(&mut self) -> (printed: bool)
        requires
            old(self).wf(),
        ensures
            final(self).wf(),
            printed == (!old(self).progress_bar_printed && old(self).property_lines@.len() > 0),
            final(self).property_lines@ == old(self).property_lines@,
            printed ==> final(self).visible_start == 0 && final(self).visible_end == (if old(
                self,
            ).property_lines@.len() < window_size() {
                old(self).property_lines@.len() as int
            } else {
                window_size()
            }) && final(self).progress_bar_printed,
            !printed ==> *final(self) == *old(self),
    {
        if !self.progress_bar_printed && self.property_lines.len() > 0 {
            self.visible_start = 0;
            self.visible_end = if self.property_lines.len() < 15 {
                self.property_lines.len()
            } else {
                15
            };
            self.progress_bar_printed = true;
            true
        } else {
            false
        }
    }

    /// The position of the line for `url`, if one exists.
    pub fn find_property_index(&self, url: &str) -> (r: Option<usize>)
        ensures
            match r {
                Some(j) => j as int == find_line_index(self.property_lines@, url@),
                None => find_line_index(self.property_lines@, url@) == -1,
            },
    {
        proof {
            lemma_find_line_index_props(self.property_lines@, url@);
        }
        let ghost lines = self.property_lines@;
        let mut i: usize = 0;
        while i < self.property_lines.len()
            invariant
                lines == self.property_lines@,
                0 <= i <= lines.len(),
                -1 <= find_line_index(lines, url@) < lines.len(),
                find_line_index(lines, url@) >= 0 ==> lines[find_line_index(
                    lines,
                    url@,
                )].url@ == url@,
                forall|k: int| 0 <= k < find_line_index(lines, url@) ==> lines[k].url@ != url@,
                find_line_index(lines, url@) == -1 ==> forall|k: int|
                    0 <= k < lines.len() ==> lines[k].url@ != url@,
                forall|k: int| 0 <= k < i ==> lines[k].url@ != url@,
            decreases lines.len() - i,
        {
            if str_eq(self.property_lines[i].url.as_str(), url) {
                return Some(i);
            }
            i += 1;
        }
        None
    }

    /// A redraw of the whole visible window; the state does not change.
    pub fn update_single_line(&mut self, _index: usize) -> (redraw: bool)
        ensures
            *final(self) == *old(self),
            redraw,
    {
        true
    }

    /// Slides the window forward so that the three most recently finished
    /// lines stay visible before the current one; returns whether the
    /// window moved and must be redrawn.
    pub fn slide_window_forward(&mut self) -> (redraw: bool)
        requires
            old(self).wf(),
        ensures
            final(self).wf(),
            final(self).property_lines@ == old(self).property_lines@,
            match old(self).current_property_index {
                None => *final(self) == *old(self) && !redraw,
                Some(cur) => {
                    let lines = old(self).property_lines@;
                    let start = if count_done(lines.take(cur as int)) >= 3 {
                        back_scan(lines, cur - 1, 3)
                    } else {
                        0
                    };
                    let end = if start + window_size() <= lines.len() {
                        start + window_size()
                    } else {
                        lines.len() as int
                    };
                    &&& redraw == (start != old(self).visible_start || end != old(
                        self,
                    ).visible_end)
                    &&& redraw ==> final(self).visible_start == start && final(self).visible_end
                        == end
                    &&& !redraw ==> *final(self) == *old(self)
                },
            },
            *final(self) == (ScraperTUI {
                visible_start: final(self).visible_start,
                visible_end: final(self).visible_end,
                ..*old(self)
            }),
    {
        let ghost lines = self.property_lines@;
        let cur = match self.current_property_index {
            Some(c) => c,
            None => {
                return false;
            },
        };
        // Count the finished lines before the current one.
        let ghost done_pred = |l: PropertyLineState| spec_line_done(l);
        let mut done_before: usize = 0;
        let mut i: usize = 0;
        proof {
            reveal(Seq::filter);
            assert(lines.take(0).filter(done_pred) =~= Seq::<PropertyLineState>::empty());
        }
        while i < cur
            invariant
                lines == self.property_lines@,
                done_pred == (|l: PropertyLineState| spec_line_done(l)),
                cur < lines.len(),
                0 <= i <= cur,
                done_before as int == lines.take(i as int).filter(done_pred).len(),
                done_before <= i,
            decreases cur - i,
        {
            let done = match self.property_lines[i].status {
                PropertyStatus::Completed | PropertyStatus::Failed => true,
                _ => false,
            };
            if done {
                done_before += 1;
            }
            proof {
                reveal(Seq::filter);
                assert(lines.take(i + 1).drop_last() =~= lines.take(i as int));
                assert(lines.take(i + 1).last() == lines[i as int]);
                lines.take(i + 1).lemma_filter_len(done_pred);
            }
            i += 1;
        }
        // Find where the window should start.
        let new_start: usize;
        if done_before >= 3 {
            new_start = back_scan_exec(&self.property_lines, cur);
        } else {
            new_start = 0;
        }
        let new_end = if new_start + 15 <= self.property_lines.len() {
            new_start + 15
        } else {
            self.property_lines.len()
        };
        if new_start != self.visible_start || new_end != self.visible_end {
            self.visible_start = new_start;
            self.visible_end = new_end;
            true
        } else {
            false
        }
    }

    /// Slides the window to make line `index` visible, with some context
    /// above it; the whole window must be redrawn.
    pub fn slide_window_to_show(&mut self, index: usize) -> (redraw: bool)
        requires
            old(self).wf(),
            index < old(self).property_lines@.len(),
        ensures
            final(self).wf(),
            final(self).property_lines@ == old(self).property_lines@,
            final(self).visible_start == (if index >= 7 {
                index - 7
            } else {
                0int
            }),
            final(self).visible_end == (if final(self).visible_start + window_size() <= old(
                self,
            ).property_lines@.len() {
                final(self).visible_start + window_size()
            } else {
                old(self).property_lines@.len() as int
            }),
            *final(self) == (ScraperTUI {
                visible_start: final(self).visible_start,
                visible_end: final(self).visible_end,
                ..*old(self)
            }),
            redraw,
    {
        let new_start = if index >= 7 {
            index - 7
        } else {
            0
        };
        let new_end = if new_start + 15 <= self.property_lines.len() {
            new_start + 15
        } else {
            self.property_lines.len()
        };
        self.visible_start = new_start;
        self.visible_end = new_end;
        true
    }

    /// Marks the line for `url` as in progress and brings it into view;
    /// returns whether the window must be redrawn.
    pub fn start_scraping_property(&mut self, url: &str) -> (redraw: bool)
        requires
            old(self).wf(),
        ensures
            final(self).wf(),
            find_line_index(old(self).property_lines@, url@) == -1 ==> *final(self) == *old(self)
                && !redraw,
            find_line_index(old(self).property_lines@, url@) >= 0 ==> {
                let j = find_line_index(old(self).property_lines@, url@);
                &&& final(self).property_lines@ == old(self).property_lines@.update(
                    j,
                    with_status(old(self).property_lines@[j], PropertyStatus::InProgress),
                )
                &&& final(self).current_property_index == Some(j as usize)
            },
            *final(self) == (ScraperTUI {
                property_lines: final(self).property_lines,
                current_property_index: final(self).current_property_index,
                visible_start: final(self).visible_start,
                visible_end: final(self).visible_end,
                ..*old(self)
            }),
    {
        let j = match self.find_property_index(url) {
            Some(j) => j,
            None => {
                return false;
            },
        };
        proof {
            lemma_find_line_index_props(self.property_lines@, url@);
        }
        let mut line = self.property_lines[j].duplicate_line();
        line.status = PropertyStatus::InProgress;
        self.property_lines.set(j, line);
        self.current_property_index = Some(j);
        if j + 2 >= self.visible_end && self.visible_end < self.property_lines.len() {
            self.slide_window_forward()
        } else if self.visible_start <= j && j < self.visible_end {
            self.update_single_line(j)
        } else {
            self.slide_window_to_show(j)
        }
    }

    /// Whether the in-progress line's activity marker must be redrawn: only
    /// when a line is in progress and visible.
    pub fn update_activity(&mut self) -> (redraw: bool)
        requires
            old(self).wf(),
        ensures
            *final(self) == *old(self),
            redraw == match old(self).current_property_index {
                Some(i) => old(self).property_lines@[i as int].status
                    == PropertyStatus::InProgress && old(self).visible_start <= i < old(
                    self,
                ).visible_end,
                None => false,
            },
    {
        match self.current_property_index {
            Some(i) => {
                let in_progress = match self.property_lines[i].status {
                    PropertyStatus::InProgress => true,
                    _ => false,
                };
                in_progress && self.visible_start <= i && i < self.visible_end
            },
            None => false,
        }
    }

    /// Marks the line for `url` with a final status; returns whether its
    /// window must be redrawn.
    fn finish_property(&mut self, url: &str, status: PropertyStatus) -> (redraw: bool)
        requires
            old(self).wf(),
        ensures
            final(self).wf(),
            find_line_index(old(self).property_lines@, url@) == -1 ==> *final(self) == *old(self)
                && !redraw,
            find_line_index(old(self).property_lines@, url@) >= 0 ==> {
                let j = find_line_index(old(self).property_lines@, url@);
                &&& final(self).property_lines@ == old(self).property_lines@.update(
                    j,
                    with_status(old(self).property_lines@[j], status),
                )
                &&& final(self).current_property_index == (if old(self).current_property_index
                    == Some(j as usize) {
                    None
                } else {
                    old(self).current_property_index
                })
                &&& redraw == (old(self).visible_start <= j < old(self).visible_end)
            },
            *final(self) == (ScraperTUI {
                property_lines: final(self).property_lines,
                current_property_index: final(self).current_property_index,
                ..*old(self)
            }),
    {
        let j = match self.find_property_index(url) {
            Some(j) => j,
            None => {
                return false;
            },
        };
        proof {
            lemma_find_line_index_props(self.property_lines@, url@);
        }
        let mut line = self.property_lines[j].duplicate_line();
        line.status = status;
        self.property_lines.set(j, line);
        let clear = match self.current_property_index {
            Some(c) => c == j,
            None => false,
        };
        if clear {
            self.current_property_index = None;
        }
        self.visible_start <= j && j < self.visible_end
    }

    /// Marks the line for `url` as completed.
    pub fn complete_property(&mut self, url: &str) -> (redraw: bool)
        requires
            old(self).wf(),
        ensures
            final(self).wf(),
            find_line_index(old(self).property_lines@, url@) == -1 ==> *final(self) == *old(self)
                && !redraw,
            find_line_index(old(self).property_lines@, url@) >= 0 ==> {
                let j = find_line_index(old(self).property_lines@, url@);
                &&& final(self).property_lines@ == old(self).property_lines@.update(
                    j,
                    with_status(old(self).property_lines@[j], PropertyStatus::Completed),
                )
                &&& final(self).current_property_index == (if old(self).current_property_index
                    == Some(j as usize) {
                    None
                } else {
                    old(self).current_property_index
                })
                &&& redraw == (old(self).visible_start <= j < old(self).visible_end)
            },
            *final(self) == (ScraperTUI {
                property_lines: final(self).property_lines,
                current_property_index: final(self).current_property_index,
                ..*old(self)
            }),
    {
        self.finish_property(url, PropertyStatus::Completed)
    }

    /// Marks the line for `url` as failed.
    pub fn fail_property(&mut self, url: &str) -> (redraw: bool)
        requires
            old(self).wf(),
        ensures
            final(self).wf(),
            find_line_index(old(self).property_lines@, url@) == -1 ==> *final(self) == *old(self)
                && !redraw,
            find_line_index(old(self).property_lines@, url@) >= 0 ==> {
                let j = find_line_index(old(self).property_lines@, url@);
                &&& final(self).property_lines@ == old(self).property_lines@.update(
                    j,
                    with_status(old(self).property_lines@[j], PropertyStatus::Failed),
                )
                &&& final(self).current_property_index == (if old(self).current_property_index
                    == Some(j as usize) {
                    None
                } else {
                    old(self).current_property_index
                })
                &&& redraw == (old(self).visible_start <= j < old(self).visible_end)
            },
            *final(self) == (ScraperTUI {
                property_lines: final(self).property_lines,
                current_property_index: final(self).current_property_index,
                ..*old(self)
            }),
    {
        self.finish_property(url, PropertyStatus::Failed)
    }

    /// The completed and failed counts for the final summary; also records
    /// the final catalog size.
    pub fn show_final_summary(&mut self, total_count: usize) -> (r: (usize, usize))
        requires
            old(self).wf(),
        ensures
            final(self).wf(),
            *final(self) == (ScraperTUI { total_properties_in_db: total_count, ..*old(self) }),
            r.0 as int == count_status(old(self).property_lines@, PropertyStatus::Completed),
            r.1 as int == count_status(old(self).property_lines@, PropertyStatus::Failed),
    {
        self.total_properties_in_db = total_count;
        let completed = self.count_with_status(PropertyStatus::Completed);
        let failed = self.count_with_status(PropertyStatus::Failed);
        (completed, failed)
    }

    /// How many lines carry the given status.
    fn count_with_status(&self, st: PropertyStatus) -> (r: usize)
        requires
            self.wf(),
        ensures
            r as int == count_status(self.property_lines@, st),
    {
        let ghost lines = self.property_lines@;
        let ghost pred = |l: PropertyLineState| l.status == st;
        let mut count: usize = 0;
        let mut i: usize = 0;
        proof {
            reveal(Seq::filter);
            assert(lines.take(0).filter(pred) =~= Seq::<PropertyLineState>::empty());
        }
        while i < self.property_lines.len()
            invariant
                lines == self.property_lines@,
                pred == (|l: PropertyLineState| l.status == st),
                0 <= i <= lines.len(),
                count as int == lines.take(i as int).filter(pred).len(),
                count <= i,
            decreases lines.len() - i,
        {
            if self.property_lines[i].status == st {
                count += 1;
            }
            proof {
                reveal(Seq::filter);
                assert(lines.take(i + 1).drop_last() =~= lines.take(i as int));
                assert(lines.take(i + 1).last() == lines[i as int]);
                lines.take(i + 1).lemma_filter_len(pred);
            }
            i += 1;
        }
        proof {
            assert(lines.take(lines.len() as int) =~= lines);
        }
        count
    }
}

/// The position of the third finished line counting back from `cur`, or
/// `0` when fewer are finished before it.
fn back_scan_exec(lines: &Vec<PropertyLineState>, cur: usize) -> (r: usize)
    requires
        cur < lines@.len(),
    ensures
        r as int == back_scan(lines@, cur - 1, 3),
        r <= cur,
{
    let mut j: usize = cur;
    let mut need: usize = 3;
    while j > 0
        invariant
            cur < lines@.len(),
            0 <= j <= cur,
            1 <= need <= 3,
            back_scan(lines@, cur - 1, 3) == back_scan(lines@, j - 1, need as int),
        decreases j,
    {
        let done = match lines[j - 1].status {
            PropertyStatus::Completed | PropertyStatus::Failed => true,
            _ => false,
        };
        if done {
            if need == 1 {
                proof {
                    assert(back_scan(lines@, j - 1, 1) == j - 1);
                }
                return j - 1;
            }
            need -= 1;
        }
        j -= 1;
    }
    proof {
        assert(back_scan(lines@, -1, need as int) == 0);
    }
    0
}


/// `p` repeated `n` times.
pub open spec fn repeat_seq(p: Seq<char>, n: nat) -> Seq<char>
    decreases n,
{
    if n == 0 {
        Seq::empty()
    } else {
        repeat_seq(p, (n - 1) as nat) + p
    }
}

/// Appends `piece` to `s` `n` times.
fn append_repeated(s: &mut String, piece: &str, n: usize)
    ensures
        final(s)@ == old(s)@ + repeat_seq(piece@, n as nat),
{
    let ghost base = old(s)@;
    let mut i: usize = 0;
    proof {
        assert(base + repeat_seq(piece@, 0) =~= base);
    }
    while i < n
        invariant
            0 <= i <= n,
            s@ == base + repeat_seq(piece@, i as nat),
        decreases n - i,
    {
        s.append(piece);
        proof {
            assert(base + repeat_seq(piece@, (i + 1) as nat) =~= (base + repeat_seq(
                piece@,
                i as nat,
            )) + piece@);
        }
        i += 1;
    }
}

/// The width of the progress bar, in characters.
pub open spec fn bar_width() -> int {
    30
}

impl ScraperTUI {
    /// The completed count, the percentage done, and the filled width of
    /// the bar.
    pub open spec fn spec_progress_numbers(self) -> (int, int, int) {
        let completed = count_status(self.property_lines@, PropertyStatus::Completed);
        let total = self.property_lines@.len() as int;
        let percentage = if total > 0 {
            completed * 100 / total
        } else {
            0
        };
        let filled = completed * bar_width() / (if total > 0 {
            total
        } else {
            1
        });
        (completed, percentage, filled)
    }

    /// The text of the progress line: the bar, the counts, the percentage,
    /// the failure count when any failed, and the catalog size.
    pub open spec fn spec_progress_text(self) -> Seq<char> {
        let (completed, percentage, filled) = self.spec_progress_numbers();
        let failed = count_status(self.property_lines@, PropertyStatus::Failed);
        let bar = "["@ + repeat_seq("\u{2588}"@, filled as nat) + repeat_seq(
            "\u{2591}"@,
            (bar_width() - filled) as nat,
        ) + "]"@;
        let head = "Progress: "@ + bar + " "@ + spec_digits(completed as nat) + "/"@ + spec_digits(
            self.property_lines@.len(),
        ) + " ("@ + spec_digits(percentage as nat) + "%)"@;
        let tail = " | DB: "@ + spec_digits(self.total_properties_in_db as nat) + " total"@;
        if failed > 0 {
            head + " | "@ + spec_digits(failed as nat) + " failed"@ + tail
        } else {
            head + tail
        }
    }

    /// Builds the text of the progress line.
    #[verifier::rlimit(60)]
    pub fn create_progress_bar_text(&self) -> (r: String)
        requires
            self.wf(),
        ensures
            r@ == self.spec_progress_text(),
    {
        let completed = self.count_with_status(PropertyStatus::Completed);
        let failed = self.count_with_status(PropertyStatus::Failed);
        let total = self.property_lines.len();
        proof {
            self.property_lines@.lemma_filter_len(
                |l: PropertyLineState| l.status == PropertyStatus::Completed,
            );
        }
        let percentage: usize = if total > 0 {
            (completed * 100) / total
        } else {
            0
        };
        let divisor = if total > 0 {
            total
        } else {
            1
        };
        let filled = (completed * 30) / divisor;
        proof {
            assert(completed as int * 30 <= divisor as int * 30) by (nonlinear_arith)
                requires
                    completed <= divisor || (total == 0 && completed == 0),
            ;
            assert((completed as int * 30) / (divisor as int) <= 30) by (nonlinear_arith)
                requires
                    completed as int * 30 <= divisor as int * 30,
                    divisor as int > 0,
            ;
        }
        let mut s = "Progress: [".to_owned();
        append_repeated(&mut s, "\u{2588}", filled);
        append_repeated(&mut s, "\u{2591}", 30 - filled);
        s.append("] ");
        let c_digits = usize_to_string(completed);
        s.append(c_digits.as_str());
        s.append("/");
        let t_digits = usize_to_string(total);
        s.append(t_digits.as_str());
        s.append(" (");
        let p_digits = usize_to_string(percentage);
        s.append(p_digits.as_str());
        s.append("%)");
        if failed > 0 {
            s.append(" | ");
            let f_digits = usize_to_string(failed);
            s.append(f_digits.as_str());
            s.append(" failed");
        }
        s.append(" | DB: ");
        let d_digits = usize_to_string(self.total_properties_in_db);
        s.append(d_digits.as_str());
        s.append(" total");
        proof {
            reveal_strlit("Progress: [");
            reveal_strlit("Progress: ");
            reveal_strlit("[");
            reveal_strlit("] ");
            reveal_strlit("]");
            reveal_strlit(" ");
            reveal_strlit("/");
            reveal_strlit(" (");
            reveal_strlit("%)");
            reveal_strlit(" | ");
            reveal_strlit(" failed");
            reveal_strlit(" | DB: ");
            reveal_strlit(" total");
            assert(s@ =~= self.spec_progress_text());
        }
        s
    }
}

impl PropertyLineState {
    /// An exact copy.
    pub fn duplicate_line(&self) -> (r: PropertyLineState)
        ensures
            r == *self,
    {
        PropertyLineState { url: self.url.clone(), status: self.status }
    }
}

/// A URL shortened to fit one display line: over 80 characters, its first
/// 77 characters and an ellipsis.
pub open spec fn spec_truncate_url(u: Seq<char>) -> Seq<char> {
    if u.len() > 80 {
        u.take(77) + "..."@
    } else {
        u
    }
}

/// Shortens a URL to fit one display line.
pub fn truncate_url(url: &str) -> (r: String)
    ensures
        r@ == spec_truncate_url(url@),
{
    let n = url.unicode_len();
    if n > 80 {
        let mut s = url.substring_char(0, 77).to_owned();
        s.append("...");
        proof {
            assert(url@.subrange(0, 77) =~= url@.take(77));
        }
        s
    } else {
        url.to_owned()
    }
}

} // verus!
