//! The logs of devices as they are shown.

use vstd::prelude::*;
use crate::cli::last_lines;
use crate::seqs::lemma_pushed;
use crate::text::{is_among, owned, str_eq, texts, trim, trimmed};
use crate::tui::App;

verus! {

/// How many lines are read for one that is shown.
pub const LOG_DEDUPE_SCAN_MULTIPLIER: usize = 8;

/// For how long a log is shown after it has changed.
pub const LOG_RECENT_WINDOW_NS: u64 = 12_000_000_000;

/// Whether a text is one of the given lines, but for white space around it.
pub open spec fn comes_again(lines: Seq<Seq<char>>, text: Seq<char>) -> bool {
    exists|j: int| 0 <= j < lines.len() && trimmed(#[trigger] lines[j]) == text
}

/// The lines that are not blank and do not come again later, but for white space around them.
pub open spec fn last_occurrences(lines: Seq<Seq<char>>) -> Seq<Seq<char>>
    decreases lines.len(),
{
    if lines.len() == 0 {
        seq![]
    } else {
        let rest = lines.drop_first();
        if trimmed(lines[0]).len() > 0 && !comes_again(rest, trimmed(lines[0])) {
            seq![lines[0]] + last_occurrences(rest)
        } else {
            last_occurrences(rest)
        }
    }
}

/// The last `count` items, or all where there are no more.
pub open spec fn last_items<T>(s: Seq<T>, count: nat) -> Seq<T> {
    if count >= s.len() {
        s
    } else {
        s.skip(s.len() - count)
    }
}

/// The last lines that are not blank, without those that come again later: at least one of them,
/// and at most `limit`.
pub open spec fn recent_lines(lines: Seq<Seq<char>>, limit: nat) -> Seq<Seq<char>> {
    last_items(
        last_occurrences(lines),
        if limit == 0 {
            1
        } else {
            limit
        },
    )
}

/// What is shown of a log: the recent lines among the last ones.
pub open spec fn shown_log(lines: Seq<Seq<char>>, limit: nat) -> Seq<Seq<char>> {
    let window = limit * LOG_DEDUPE_SCAN_MULTIPLIER;
    recent_lines(
        last_items(
            lines,
            if window > usize::MAX {
                usize::MAX as nat
            } else {
                window as nat
            },
        ),
        limit,
    )
}

proof fn lemma_suffix_of_occurrences(lines: Seq<Seq<char>>, i: int)
    requires
        0 <= i <= lines.len(),
    ensures
        last_occurrences(lines.skip(i)).len() <= last_occurrences(lines).len(),
        last_occurrences(lines).skip(
            last_occurrences(lines).len() - last_occurrences(lines.skip(i)).len(),
        ) == last_occurrences(lines.skip(i)),
    decreases i,
{
    let all = last_occurrences(lines);
    let tail = last_occurrences(lines.skip(i));
    if i == 0 {
        assert(lines.skip(0) =~= lines);
        assert(all.skip(0) =~= all);
    } else {
        let rest = lines.drop_first();
        assert(rest.skip(i - 1) =~= lines.skip(i));
        lemma_suffix_of_occurrences(rest, i - 1);
        let later = last_occurrences(rest);
        if all.len() != later.len() {
            assert(all.skip(all.len() - tail.len()) =~= later.skip(later.len() - tail.len()));
        } else {
            assert(all =~= later) by {
                if trimmed(lines[0]).len() > 0 && !comes_again(rest, trimmed(lines[0])) {
                    assert(all.len() == later.len() + 1);
                }
            }
        }
    }
}

fn reversed(lines: Vec<String>) -> (r: Vec<String>)
    ensures
        r@ == lines@.reverse(),
{
    let n: usize = lines.len();
    let mut out: Vec<String> = Vec::new();
    let mut i: usize = n;
    while i > 0
        invariant
            n == lines@.len(),
            i <= n,
            out@ == lines@.skip(i as int).reverse(),
        decreases i,
    {
        i = i - 1;
        out.push(lines[i].clone());
        assert(out@ =~= lines@.skip(i as int).reverse());
    }
    assert(lines@.skip(0) =~= lines@);
    out
}

fn same_texts(a: &Vec<String>, b: &Vec<String>) -> (r: bool)
    ensures
        r == (texts(a@) == texts(b@)),
{
    let n: usize = a.len();
    if n != b.len() {
        assert(texts(a@).len() != texts(b@).len());
        return false;
    }
    let mut i: usize = 0;
    while i < n
        invariant
            n == a@.len(),
            n == b@.len(),
            i <= n,
            forall|k: int| 0 <= k < i ==> #[trigger] texts(a@)[k] == texts(b@)[k],
        decreases n - i,
    {
        if !str_eq(a[i].as_str(), b[i].as_str()) {
            assert(texts(a@)[i as int] != texts(b@)[i as int]);
            return false;
        }
        i = i + 1;
    }
    assert(texts(a@) =~= texts(b@));
    true
}

impl App {
    /// Keeps the last lines that are not blank, without those that come again later.
    pub fn dedupe_recent_lines(lines: &Vec<String>, limit: usize) -> (r: Vec<String>)
        ensures
            texts(r@) == recent_lines(texts(lines@), limit as nat),
    {
        let ghost all = texts(lines@);
        let n: usize = lines.len();
        let mut seen: Vec<String> = Vec::new();
        let mut out_rev: Vec<String> = Vec::new();
        let mut i: usize = n;
        assert(all.skip(n as int) =~= seq![]);
        assert(texts(out_rev@).reverse() =~= last_occurrences(all.skip(n as int)));
        while i > 0
            invariant
                n == lines@.len(),
                i <= n,
                all == texts(lines@),
                texts(out_rev@).reverse() == last_occurrences(all.skip(i as int)),
                out_rev@.len() == 0 || out_rev@.len() < limit,
                forall|t: Seq<char>|
                    t.len() > 0 ==> (#[trigger] texts(seen@).contains(t) <==> comes_again(
                        all.skip(i as int),
                        t,
                    )),
            decreases i,
        {
            i = i - 1;
            let normalized: String = trim(lines[i].as_str());
            let ghost before = out_rev@;
            let ghost seen_before = seen@;
            let ghost text = normalized@;
            let ghost rest = all.skip(i as int + 1);
            let ghost here = all.skip(i as int);
            proof {
                assert(here.drop_first() =~= rest);
                assert(here[0] == all[i as int]);
                assert forall|t: Seq<char>| comes_again(here, t) <==> comes_again(rest, t) || t
                    == normalized@ by {
                    if comes_again(rest, t) {
                        let j = choose|j: int| 0 <= j < rest.len() && trimmed(#[trigger] rest[j]) == t;
                        assert(here[j + 1] == rest[j]);
                    }
                    if comes_again(here, t) {
                        let j = choose|j: int| 0 <= j < here.len() && trimmed(#[trigger] here[j]) == t;
                        if j > 0 {
                            assert(rest[j - 1] == here[j]);
                        }
                    }
                    if t == normalized@ {
                        assert(trimmed(here[0]) == t);
                    }
                }
            }
            if normalized.as_str().unicode_len() > 0 && !is_among(seen.as_slice(), normalized.as_str()) {
                seen.push(normalized);
                out_rev.push(lines[i].clone());
                proof {
                    let added = seen@.last()@;
                    assert(texts(seen@) =~= texts(seen_before).push(added));
                    lemma_pushed(texts(seen_before), added);
                    assert(texts(out_rev@) =~= texts(before).push(here[0]));
                    assert(texts(out_rev@).reverse() =~= seq![here[0]] + texts(before).reverse());
                }
                if out_rev.len() >= limit {
                    proof {
                        lemma_suffix_of_occurrences(all, i as int);
                        let kept = last_occurrences(here);
                        assert(texts(out_rev@).reverse().len() == kept.len());
                        let whole = last_occurrences(all);
                        if kept.len() == whole.len() {
                            assert(whole.skip(0) =~= whole);
                        }
                        assert(texts(out_rev@.reverse()) =~= texts(out_rev@).reverse());
                    }
                    return reversed(out_rev);
                }
            }
            proof {
                assert forall|t: Seq<char>| t.len() > 0 implies (#[trigger] texts(seen@).contains(t)
                    <==> comes_again(all.skip(i as int), t)) by {
                    assert(texts(seen_before).contains(t) <==> comes_again(rest, t));
                    assert(comes_again(here, t) <==> comes_again(rest, t) || t == text);
                    assert(texts(seen@).contains(t) <==> texts(seen_before).contains(t) || t == text);
                }
            }
        }
        proof {
            assert(all.skip(0) =~= all);
            assert(texts(out_rev@.reverse()) =~= texts(out_rev@).reverse());
            assert(texts(out_rev@).reverse().len() == last_occurrences(all).len());
        }
        reversed(out_rev)
    }

    /// The lines of a log as they are remembered, none where nothing is.
    pub open spec fn cached_log(self, name: Seq<char>) -> Seq<Seq<char>> {
        if self.log_cache@.contains_key(name) {
            texts(self.log_cache@[name]@)
        } else {
            seq![]
        }
    }

    /// Takes what stands in the log of a device, if it has one: remembers what is shown of it, and
    /// when that last changed.
    pub fn update_log_cache(&mut self, device_name: &str, lines: Option<&Vec<String>>, now_ns: u64)
        ensures
            *final(self) == (App {
                log_cache: final(self).log_cache,
                log_last_change: final(self).log_last_change,
                ..*old(self)
            }),
            match lines {
                Some(all) => {
                    let shown = shown_log(texts(all@), old(self).max_log_lines as nat);
                    &&& final(self).log_cache@.contains_key(device_name@)
                    &&& final(self).cached_log(device_name@) == shown
                    &&& final(self).log_cache@.remove(device_name@) == old(self).log_cache@.remove(
                        device_name@,
                    )
                    &&& final(self).log_last_change@ == (if shown == old(self).cached_log(
                        device_name@,
                    ) {
                        old(self).log_last_change@
                    } else {
                        old(self).log_last_change@.insert(device_name@, now_ns)
                    })
                },
                None => {
                    &&& final(self).log_cache@ == old(self).log_cache@.remove(device_name@)
                    &&& final(self).log_last_change@ == old(self).log_last_change@.remove(
                        device_name@,
                    )
                },
            },
    {
        let ghost start = *self;
        let all: &Vec<String> = match lines {
            Some(all) => all,
            None => {
                self.log_cache.remove(device_name);
                self.log_last_change.remove(device_name);
                return ;
            },
        };
        let limit: usize = self.max_log_lines;
        let scan_window: usize = match limit.checked_mul(LOG_DEDUPE_SCAN_MULTIPLIER) {
            Some(w) => w,
            None => usize::MAX,
        };
        let window: Vec<String> = last_lines(all, scan_window);
        proof {
            assert(texts(window@) =~= last_items(texts(all@), scan_window as nat));
        }
        let deduped: Vec<String> = App::dedupe_recent_lines(&window, limit);
        let changed: bool = match self.log_cache.get(device_name) {
            Some(cache) => !same_texts(cache, &deduped),
            None => {
                proof {
                    if deduped@.len() == 0 {
                        assert(texts(deduped@) =~= seq![]);
                    }
                }
                deduped.len() > 0
            },
        };
        let ghost shown = texts(deduped@);
        if changed || !self.log_cache.contains_key(device_name) {
            self.log_cache.insert(owned(device_name), deduped);
            proof {
                assert(self.log_cache@.remove(device_name@) =~= start.log_cache@.remove(device_name@));
            }
        }
        if changed {
            self.log_last_change.insert(owned(device_name), now_ns);
        }
    }
}

proof fn lemma_occurrences(lines: Seq<Seq<char>>)
    ensures
        forall|i: int|
            0 <= i < last_occurrences(lines).len() ==> lines.contains(
                #[trigger] last_occurrences(lines)[i],
            ) && trimmed(last_occurrences(lines)[i]).len() > 0,
        forall|i: int, j: int|
            0 <= i < j < last_occurrences(lines).len() ==> trimmed(
                #[trigger] last_occurrences(lines)[i],
            ) != trimmed(#[trigger] last_occurrences(lines)[j]),
    decreases lines.len(),
{
    if lines.len() > 0 {
        let rest = lines.drop_first();
        let later = last_occurrences(rest);
        let all = last_occurrences(lines);
        lemma_occurrences(rest);
        assert forall|i: int| 0 <= i < later.len() implies lines.contains(#[trigger] later[i]) by {
            let j = rest.index_of(later[i]);
            assert(rest.contains(later[i]));
            assert(lines[j + 1] == later[i]);
        }
        assert(lines.contains(lines[0]));
        if trimmed(lines[0]).len() > 0 && !comes_again(rest, trimmed(lines[0])) {
            assert forall|j: int| 0 <= j < later.len() implies trimmed(#[trigger] later[j]) != trimmed(
                lines[0],
            ) by {
                assert(rest.contains(later[j]));
                let k = rest.index_of(later[j]);
                assert(rest[k] == later[j]);
            }
            assert forall|i: int| 0 <= i < all.len() implies lines.contains(#[trigger] all[i]) && trimmed(
                all[i],
            ).len() > 0 by {
                if i > 0 {
                    assert(all[i] == later[i - 1]);
                }
            }
            assert forall|i: int, j: int| 0 <= i < j < all.len() implies trimmed(#[trigger] all[i])
                != trimmed(#[trigger] all[j]) by {
                assert(all[j] == later[j - 1]);
                if i > 0 {
                    assert(all[i] == later[i - 1]);
                }
            }
        }
    }
}

/// What is shown of a log are lines of it, none of them blank, no two of them the same but for
/// white space, and no more of them than asked for.
pub proof fn shown_lines_differ(lines: Seq<Seq<char>>, limit: nat)
    requires
        limit > 0,
    ensures
        recent_lines(lines, limit).len() <= limit,
        forall|i: int|
            0 <= i < recent_lines(lines, limit).len() ==> lines.contains(
                #[trigger] recent_lines(lines, limit)[i],
            ) && trimmed(recent_lines(lines, limit)[i]).len() > 0,
        forall|i: int, j: int|
            0 <= i < j < recent_lines(lines, limit).len() ==> trimmed(
                #[trigger] recent_lines(lines, limit)[i],
            ) != trimmed(#[trigger] recent_lines(lines, limit)[j]),
{
    lemma_occurrences(lines);
    let all = last_occurrences(lines);
    let shown = recent_lines(lines, limit);
    assert forall|i: int| 0 <= i < shown.len() implies #[trigger] shown[i] == all[i + (all.len()
        - shown.len())] by {}
}

proof fn lemma_filter_one<T>(x: T, s: Seq<T>, p: spec_fn(T) -> bool)
    ensures
        (seq![x] + s).filter(p) == (if p(x) {
            seq![x] + s.filter(p)
        } else {
            s.filter(p)
        }),
{
    Seq::filter_distributes_over_add(seq![x], s, p);
    reveal(Seq::filter);
    assert(seq![x].drop_last() =~= Seq::<T>::empty());
    assert(Seq::<T>::empty().filter(p) =~= Seq::<T>::empty());
    assert(seq![x].last() == x);
    if p(x) {
        assert(seq![x].filter(p) =~= seq![x]);
    } else {
        assert(seq![x].filter(p) =~= Seq::<T>::empty());
        assert(Seq::<T>::empty() + s.filter(p) =~= s.filter(p));
    }
}

/// A new line stands at the end of what is kept, in place of the one that was the same but for white
/// space; a blank one changes nothing.
pub proof fn new_lines_stand_last(lines: Seq<Seq<char>>, line: Seq<char>)
    ensures
        trimmed(line).len() == 0 ==> last_occurrences(lines.push(line)) == last_occurrences(lines),
        trimmed(line).len() > 0 ==> last_occurrences(lines.push(line)) == last_occurrences(lines).filter(
            |l: Seq<char>| trimmed(l) != trimmed(line),
        ).push(line),
    decreases lines.len(),
{
    let p = |l: Seq<char>| trimmed(l) != trimmed(line);
    let more = lines.push(line);
    if lines.len() == 0 {
        reveal_with_fuel(last_occurrences, 2);
        assert(more.drop_first() =~= seq![]);
        reveal(Seq::filter);
        assert(last_occurrences(lines).filter(p) =~= Seq::<Seq<char>>::empty());
        assert(seq![line] + Seq::<Seq<char>>::empty() =~= seq![line]);
        assert(Seq::<Seq<char>>::empty().push(line) =~= seq![line]);
    } else {
        let rest = lines.drop_first();
        let first = lines[0];
        assert(more.drop_first() =~= rest.push(line));
        assert(more[0] == first);
        new_lines_stand_last(rest, line);
        let t = trimmed(first);
        assert(comes_again(rest.push(line), t) <==> comes_again(rest, t) || t == trimmed(line)) by {
            if comes_again(rest, t) {
                let j = choose|j: int| 0 <= j < rest.len() && trimmed(#[trigger] rest[j]) == t;
                assert(rest.push(line)[j] == rest[j]);
            }
            if t == trimmed(line) {
                assert(rest.push(line)[rest.len() as int] == line);
            }
            if comes_again(rest.push(line), t) {
                let j = choose|j: int|
                    0 <= j < rest.push(line).len() && trimmed(#[trigger] rest.push(line)[j]) == t;
                if j < rest.len() {
                    assert(rest[j] == rest.push(line)[j]);
                }
            }
        }
        lemma_filter_one(first, last_occurrences(rest), p);
        if trimmed(line).len() > 0 && t.len() > 0 && !comes_again(rest, t) && t != trimmed(line) {
            assert(seq![first] + last_occurrences(rest).filter(p).push(line) =~= (seq![first]
                + last_occurrences(rest).filter(p)).push(line));
        }
    }
}

/// The last items are the end of a sequence, and as many as asked for, if there are so many.
pub proof fn last_items_are_the_end<T>(s: Seq<T>, count: nat)
    ensures
        last_items(s, count).len() == (if count < s.len() {
            count
        } else {
            s.len()
        }),
        last_items(s, count) == s.skip(s.len() - last_items(s, count).len()),
{
    assert(s.skip(0) =~= s);
}

/// As many lines are shown as asked for, but at least one, out of the last eight times as many.
pub proof fn logs_are_shown_from_their_end(lines: Seq<Seq<char>>, limit: nat)
    requires
        limit <= usize::MAX / 8,
    ensures
        limit > 0 ==> shown_log(lines, limit) == last_items(
            last_occurrences(last_items(lines, 8 * limit)),
            limit,
        ),
        shown_log(lines, 0) == last_items(last_occurrences(last_items(lines, 0)), 1),
        recent_lines(lines, 0) == recent_lines(lines, 1),
        LOG_RECENT_WINDOW_NS == 12 * 1000 * 1000 * 1000,
{
}

/// What is remembered of a log is what was put there, and nothing where nothing was.
pub proof fn remembered_logs_are_those_of_their_device(app: App, name: Seq<char>)
    ensures
        app.log_cache@.contains_key(name) ==> app.cached_log(name) == texts(app.log_cache@[name]@),
        !app.log_cache@.contains_key(name) ==> app.cached_log(name).len() == 0,
{
}

/// The log of a device is remembered as it is shown, and when that last changed; without a log both
/// are forgotten.
pub proof fn logs_are_remembered_as_shown(
    app: &mut App,
    device_name: &str,
    lines: Option<&Vec<String>>,
    now_ns: u64,
)
    requires
        call_ensures(App::update_log_cache, (app, device_name, lines, now_ns), ()),
    ensures
        lines is None ==> !final(app).log_cache@.contains_key(device_name@)
            && !final(app).log_last_change@.contains_key(device_name@),
        lines matches Some(all) ==> final(app).cached_log(device_name@) == shown_log(
            texts(all@),
            old(app).max_log_lines as nat,
        ),
        lines matches Some(all) ==> (final(app).cached_log(device_name@) != old(app).cached_log(
            device_name@,
        ) ==> final(app).log_last_change@.contains_key(device_name@)
            && final(app).log_last_change@[device_name@] == now_ns),
        lines matches Some(all) ==> (final(app).cached_log(device_name@) == old(app).cached_log(
            device_name@,
        ) ==> final(app).log_last_change@ == old(app).log_last_change@),
        final(app).devices == old(app).devices,
{
}

} // verus!
