//! Token usage: a log of per-request counts and its sums per day.

use vstd::prelude::*;
use vstd::string::*;
use vstd::utf8::{encode_utf8, encode_utf8_decode_utf8};

verus! {

/// The tokens of one day: the sums over all requests recorded for `date`.
#[derive(Debug, Clone, PartialEq, Eq)]
pub struct TokenStat {
    pub date: String,
    pub prompt_tokens: i64,
    pub completion_tokens: i64,
}

/// What a [`TokenStat`] holds.
pub struct TokenStatView {
    pub date: Seq<char>,
    pub prompt_tokens: i64,
    pub completion_tokens: i64,
}

impl View for TokenStat {
    type V = TokenStatView;

    open spec fn view(&self) -> TokenStatView {
        TokenStatView {
            date: self.date@,
            prompt_tokens: self.prompt_tokens,
            completion_tokens: self.completion_tokens,
        }
    }
}

/// The tokens of one request against one model.
#[derive(Debug, Clone, PartialEq, Eq)]
pub struct TokenUsage {
    pub date: String,
    pub prompt_tokens: i64,
    pub completion_tokens: i64,
    pub model: String,
}

/// What a [`TokenUsage`] holds.
pub struct TokenUsageView {
    pub date: Seq<char>,
    pub prompt_tokens: i64,
    pub completion_tokens: i64,
    pub model: Seq<char>,
}

impl View for TokenUsage {
    type V = TokenUsageView;

    open spec fn view(&self) -> TokenUsageView {
        TokenUsageView {
            date: self.date@,
            prompt_tokens: self.prompt_tokens,
            completion_tokens: self.completion_tokens,
            model: self.model@,
        }
    }
}

/// Why the sums per day cannot be given.
#[derive(Debug, Clone, Copy, PartialEq, Eq)]
pub enum UsageError {
    /// The tokens of some day add up to more than an `i64` holds.
    Overflow,
}

/// The views of a run of rows, in order.
pub open spec fn usage_views(rows: Seq<TokenUsage>) -> Seq<TokenUsageView> {
    rows.map_values(|r: TokenUsage| r@)
}

/// The views of a run of sums, in order.
pub open spec fn stat_views(stats: Seq<TokenStat>) -> Seq<TokenStatView> {
    stats.map_values(|s: TokenStat| s@)
}

/// Some row was recorded for `date`.
pub open spec fn recorded(rows: Seq<TokenUsageView>, date: Seq<char>) -> bool {
    exists|i: int| 0 <= i < rows.len() && (#[trigger] rows[i]).date == date
}

/// The prompt tokens of all rows recorded for `date`.
pub open spec fn prompt_total(rows: Seq<TokenUsageView>, date: Seq<char>) -> int
    decreases rows.len(),
{
    if rows.len() == 0 {
        0
    } else if rows.last().date == date {
        prompt_total(rows.drop_last(), date) + rows.last().prompt_tokens
    } else {
        prompt_total(rows.drop_last(), date)
    }
}

/// The completion tokens of all rows recorded for `date`.
pub open spec fn completion_total(rows: Seq<TokenUsageView>, date: Seq<char>) -> int
    decreases rows.len(),
{
    if rows.len() == 0 {
        0
    } else if rows.last().date == date {
        completion_total(rows.drop_last(), date) + rows.last().completion_tokens
    } else {
        completion_total(rows.drop_last(), date)
    }
}

/// `a` and `b` agree on their first `k` bytes, and there `a` ends or holds
/// the smaller byte.
pub open spec fn parts_at(a: Seq<u8>, b: Seq<u8>, k: int) -> bool {
    &&& 0 <= k <= a.len()
    &&& k < b.len()
    &&& forall|i: int| 0 <= i < k ==> a[i] == b[i]
    &&& k < a.len() ==> a[k] < b[k]
}

/// `a` comes before `b` in the order of their bytes.
pub open spec fn bytes_before(a: Seq<u8>, b: Seq<u8>) -> bool {
    exists|k: int| parts_at(a, b, k)
}

/// `a` comes before `b`: dates are ordered by the bytes of their UTF-8
/// text, which for dates written as `YYYY-MM-DD` is the order of the
/// calendar.
pub open spec fn date_before(a: Seq<char>, b: Seq<char>) -> bool {
    bytes_before(encode_utf8(a), encode_utf8(b))
}

/// The tokens of every recorded day add up to what an `i64` holds.
pub open spec fn totals_fit(rows: Seq<TokenUsageView>) -> bool {
    forall|date: Seq<char>| #[trigger]
        recorded(rows, date) ==> i64::MIN <= prompt_total(rows, date) <= i64::MAX && i64::MIN
            <= completion_total(rows, date) <= i64::MAX
}

/// `stats` has an entry for `date`.
pub open spec fn has_day(stats: Seq<TokenStatView>, date: Seq<char>) -> bool {
    exists|k: int| 0 <= k < stats.len() && (#[trigger] stats[k]).date == date
}

/// `stats` are the sums per day of `rows`: one entry for each recorded day
/// and none else, each with the sums of that day, in ascending order of the
/// dates.
pub open spec fn is_aggregate(rows: Seq<TokenUsageView>, stats: Seq<TokenStatView>) -> bool {
    &&& forall|i: int, j: int|
        0 <= i < j < stats.len() ==> date_before((#[trigger] stats[i]).date, (#[trigger] stats[j]).date)
    &&& forall|k: int|
        0 <= k < stats.len() ==> recorded(rows, (#[trigger] stats[k]).date)
            && stats[k].prompt_tokens == prompt_total(rows, stats[k].date)
            && stats[k].completion_tokens == completion_total(rows, stats[k].date)
    &&& forall|i: int| 0 <= i < rows.len() ==> has_day(stats, (#[trigger] rows[i]).date)
}

/// The order of bytes is transitive.
pub proof fn lemma_bytes_before_transitive(a: Seq<u8>, b: Seq<u8>, c: Seq<u8>)
    requires
        bytes_before(a, b),
        bytes_before(b, c),
    ensures
        bytes_before(a, c),
{
    let k1 = choose|k: int| parts_at(a, b, k);
    let k2 = choose|k: int| parts_at(b, c, k);
    if k1 <= k2 {
        assert(parts_at(a, c, k1));
    } else {
        assert(parts_at(a, c, k2));
    }
}

/// Nothing comes before itself.
pub proof fn lemma_bytes_before_irreflexive(a: Seq<u8>)
    ensures
        !bytes_before(a, a),
{
    if bytes_before(a, a) {
        let k = choose|k: int| parts_at(a, a, k);
        assert(false);
    }
}

/// Dates of equal bytes are equal.
pub proof fn lemma_date_of_bytes(a: Seq<char>, b: Seq<char>)
    requires
        encode_utf8(a) == encode_utf8(b),
    ensures
        a == b,
{
    encode_utf8_decode_utf8(a);
    encode_utf8_decode_utf8(b);
}

/// One more row adds its tokens to the sums of its own day and to no other.
pub proof fn lemma_totals_push(rows: Seq<TokenUsageView>, row: TokenUsageView, date: Seq<char>)
    ensures
        prompt_total(rows.push(row), date) == prompt_total(rows, date) + if row.date == date {
            row.prompt_tokens as int
        } else {
            0
        },
        completion_total(rows.push(row), date) == completion_total(rows, date) + if row.date
            == date {
            row.completion_tokens as int
        } else {
            0
        },
        recorded(rows.push(row), date) <==> recorded(rows, date) || row.date == date,
{
    let more = rows.push(row);
    assert(more.drop_last() =~= rows);
    assert(more.last() == row);
    if recorded(rows, date) {
        let i = choose|i: int| 0 <= i < rows.len() && (#[trigger] rows[i]).date == date;
        assert(more[i].date == date);
    }
    if row.date == date {
        assert(more[rows.len() as int].date == date);
    }
    if recorded(more, date) {
        let i = choose|i: int| 0 <= i < more.len() && (#[trigger] more[i]).date == date;
        if i < rows.len() {
            assert(rows[i].date == date);
        }
    }
}

/// A day without rows has no tokens.
pub proof fn lemma_unrecorded_totals(rows: Seq<TokenUsageView>, date: Seq<char>)
    requires
        !recorded(rows, date),
    ensures
        prompt_total(rows, date) == 0,
        completion_total(rows, date) == 0,
    decreases rows.len(),
{
    if rows.len() > 0 {
        assert(rows.last() == rows[rows.len() - 1]);
        assert forall|i: int| 0 <= i < rows.drop_last().len() implies (
        #[trigger] rows.drop_last()[i]).date != date by {
            assert(rows[i].date != date);
        }
        lemma_unrecorded_totals(rows.drop_last(), date);
    }
}

/// The sums of a day are bounded by the number of rows.
pub proof fn lemma_totals_bounded(rows: Seq<TokenUsageView>, date: Seq<char>)
    ensures
        -(rows.len() * 0x8000_0000_0000_0000) <= prompt_total(rows, date) <= rows.len()
            * 0x8000_0000_0000_0000,
        -(rows.len() * 0x8000_0000_0000_0000) <= completion_total(rows, date) <= rows.len()
            * 0x8000_0000_0000_0000,
    decreases rows.len(),
{
    if rows.len() > 0 {
        lemma_totals_bounded(rows.drop_last(), date);
    }
}

/// The dates of a run of sums, in order.
pub open spec fn days_of(stats: Seq<TokenStatView>) -> Seq<Seq<char>> {
    stats.map_values(|s: TokenStatView| s.date)
}

/// The days stand in ascending order.
pub open spec fn ascending_days(days: Seq<Seq<char>>) -> bool {
    forall|i: int, j: int|
        0 <= i < j < days.len() ==> date_before(#[trigger] days[i], #[trigger] days[j])
}

/// Two ascending runs of the same days are the same run.
pub proof fn lemma_same_days(a: Seq<Seq<char>>, b: Seq<Seq<char>>)
    requires
        ascending_days(a),
        ascending_days(b),
        forall|i: int| 0 <= i < a.len() ==> b.contains(#[trigger] a[i]),
        forall|i: int| 0 <= i < b.len() ==> a.contains(#[trigger] b[i]),
    ensures
        a == b,
    decreases a.len(),
{
    if a.len() == 0 {
        if b.len() > 0 {
            assert(a.contains(b[0]));
        }
        assert(a =~= b);
    } else if b.len() == 0 {
        assert(b.contains(a[0]));
    } else {
        assert(b.contains(a[0]));
        assert(a.contains(b[0]));
        let k = choose|k: int| 0 <= k < b.len() && b[k] == a[0];
        let j = choose|j: int| 0 <= j < a.len() && a[j] == b[0];
        lemma_bytes_before_irreflexive(encode_utf8(b[0]));
        if k != 0 && j != 0 {
            assert(date_before(b[0], b[k]));
            assert(date_before(a[0], a[j]));
            lemma_bytes_before_transitive(encode_utf8(b[0]), encode_utf8(a[0]), encode_utf8(b[0]));
        }
        assert(a[0] == b[0]);
        let rest_a = a.drop_first();
        let rest_b = b.drop_first();
        assert forall|i: int| 0 <= i < rest_a.len() implies rest_b.contains(
            #[trigger] rest_a[i],
        ) by {
            assert(rest_a[i] == a[i + 1]);
            assert(b.contains(a[i + 1]));
            let m = choose|m: int| 0 <= m < b.len() && b[m] == a[i + 1];
            assert(date_before(a[0], a[i + 1]));
            lemma_bytes_before_irreflexive(encode_utf8(a[0]));
            assert(rest_b[m - 1] == rest_a[i]);
        }
        assert forall|i: int| 0 <= i < rest_b.len() implies rest_a.contains(
            #[trigger] rest_b[i],
        ) by {
            assert(rest_b[i] == b[i + 1]);
            assert(a.contains(b[i + 1]));
            let m = choose|m: int| 0 <= m < a.len() && a[m] == b[i + 1];
            assert(date_before(b[0], b[i + 1]));
            assert(rest_a[m - 1] == rest_b[i]);
        }
        assert(ascending_days(rest_a)) by {
            assert forall|i: int, j: int| 0 <= i < j < rest_a.len() implies date_before(
                #[trigger] rest_a[i],
                #[trigger] rest_a[j],
            ) by {
                assert(date_before(a[i + 1], a[j + 1]));
            }
        }
        assert(ascending_days(rest_b)) by {
            assert forall|i: int, j: int| 0 <= i < j < rest_b.len() implies date_before(
                #[trigger] rest_b[i],
                #[trigger] rest_b[j],
            ) by {
                assert(date_before(b[i + 1], b[j + 1]));
            }
        }
        lemma_same_days(rest_a, rest_b);
        assert(a =~= seq![a[0]] + rest_a);
        assert(b =~= seq![b[0]] + rest_b);
    }
}

/// The sums per day of a log are determined by the log: there is one
/// aggregate and no other.
pub proof fn lemma_aggregate_is_unique(
    rows: Seq<TokenUsageView>,
    a: Seq<TokenStatView>,
    b: Seq<TokenStatView>,
)
    requires
        is_aggregate(rows, a),
        is_aggregate(rows, b),
    ensures
        a == b,
{
    let days_a = days_of(a);
    let days_b = days_of(b);
    assert(ascending_days(days_a)) by {
        assert forall|i: int, j: int| 0 <= i < j < days_a.len() implies date_before(
            #[trigger] days_a[i],
            #[trigger] days_a[j],
        ) by {
            assert(date_before(a[i].date, a[j].date));
        }
    }
    assert(ascending_days(days_b)) by {
        assert forall|i: int, j: int| 0 <= i < j < days_b.len() implies date_before(
            #[trigger] days_b[i],
            #[trigger] days_b[j],
        ) by {
            assert(date_before(b[i].date, b[j].date));
        }
    }
    assert forall|i: int| 0 <= i < days_a.len() implies days_b.contains(#[trigger] days_a[i]) by {
        assert(recorded(rows, a[i].date));
        let r = choose|r: int| 0 <= r < rows.len() && (#[trigger] rows[r]).date == a[i].date;
        assert(has_day(b, rows[r].date));
        let k = choose|k: int| 0 <= k < b.len() && (#[trigger] b[k]).date == rows[r].date;
        assert(days_b[k] == days_a[i]);
    }
    assert forall|i: int| 0 <= i < days_b.len() implies days_a.contains(#[trigger] days_b[i]) by {
        assert(recorded(rows, b[i].date));
        let r = choose|r: int| 0 <= r < rows.len() && (#[trigger] rows[r]).date == b[i].date;
        assert(has_day(a, rows[r].date));
        let k = choose|k: int| 0 <= k < a.len() && (#[trigger] a[k]).date == rows[r].date;
        assert(days_a[k] == days_b[i]);
    }
    lemma_same_days(days_a, days_b);
    assert(days_a.len() == a.len() && days_b.len() == b.len());
    assert forall|k: int| 0 <= k < a.len() implies a[k] == b[k] by {
        assert(days_a[k] == days_b[k]);
        assert(a[k].date == b[k].date);
    }
    assert(a =~= b);
}

/// Two requests recorded for one day, and nothing else, make one row: that
/// day with the sums of the two.
pub proof fn lemma_two_records_of_one_day(
    first: TokenUsageView,
    second: TokenUsageView,
    stats: Seq<TokenStatView>,
)
    requires
        first.date == second.date,
        is_aggregate(seq![first, second], stats),
    ensures
        stats.len() == 1,
        stats[0].date == first.date,
        stats[0].prompt_tokens == first.prompt_tokens + second.prompt_tokens,
        stats[0].completion_tokens == first.completion_tokens + second.completion_tokens,
{
    let rows = seq![first, second];
    assert(has_day(stats, rows[0].date));
    assert forall|k: int| 0 <= k < stats.len() implies (#[trigger] stats[k]).date
        == first.date by {
        assert(recorded(rows, stats[k].date));
        let i = choose|i: int| 0 <= i < rows.len() && (#[trigger] rows[i]).date == stats[k].date;
    }
    if stats.len() > 1 {
        assert(date_before(stats[0].date, stats[1].date));
        lemma_bytes_before_irreflexive(encode_utf8(first.date));
    }
    assert(rows.drop_last() =~= seq![first]);
    assert(rows.drop_last().drop_last() =~= Seq::<TokenUsageView>::empty());
    reveal_with_fuel(prompt_total, 3);
    reveal_with_fuel(completion_total, 3);
}

/// The log of recorded requests, oldest first.
pub struct UsageLog {
    rows: Vec<TokenUsage>,
}

impl View for UsageLog {
    type V = Seq<TokenUsageView>;

    closed spec fn view(&self) -> Seq<TokenUsageView> {
        usage_views(self.rows@)
    }
}

/// How the bytes of two dates compare.
enum DateOrder {
    Earlier,
    Same,
    Later,
}

/// Compares two byte strings in the order of their bytes.
fn order_of(a: &[u8], b: &[u8]) -> (r: DateOrder)
    ensures
        match r {
            DateOrder::Earlier => bytes_before(a@, b@),
            DateOrder::Same => a@ == b@,
            DateOrder::Later => bytes_before(b@, a@),
        },
{
    let mut i: usize = 0;
    while i < a.len() && i < b.len()
        invariant
            i <= a.len(),
            i <= b.len(),
            forall|j: int| 0 <= j < i ==> a@[j] == b@[j],
        decreases a.len() - i,
    {
        if a[i] < b[i] {
            assert(parts_at(a@, b@, i as int));
            return DateOrder::Earlier;
        }
        if a[i] > b[i] {
            assert(parts_at(b@, a@, i as int));
            return DateOrder::Later;
        }
        i = i + 1;
    }
    if i < b.len() {
        assert(parts_at(a@, b@, i as int));
        DateOrder::Earlier
    } else if i < a.len() {
        assert(parts_at(b@, a@, i as int));
        DateOrder::Later
    } else {
        assert(a@ =~= b@);
        DateOrder::Same
    }
}

impl UsageLog {
    /// An empty log.
    pub fn new() -> (r: UsageLog)
        ensures
            r@ == Seq::<TokenUsageView>::empty(),
    {
        let r = UsageLog { rows: Vec::new() };
        assert(r@ =~= Seq::<TokenUsageView>::empty());
        r
    }

    /// The number of recorded requests.
    pub fn len(&self) -> (r: usize)
        ensures
            r == self@.len(),
    {
        self.rows.len()
    }

    /// The recorded requests, oldest first.
    pub fn rows(&self) -> (r: &Vec<TokenUsage>)
        ensures
            usage_views(r@) == self@,
    {
        &self.rows
    }

    /// Forgets every recorded request.
    pub fn clear(&mut self)
        ensures
            final(self)@ == Seq::<TokenUsageView>::empty(),
    {
        self.rows.clear();
        assert(self@ =~= Seq::<TokenUsageView>::empty());
    }
}

/// Records the tokens of one request against `model` on `date`.
pub fn record_tokens(log: &mut UsageLog, date: &str, prompt: i64, completion: i64, model: &str)
    ensures
        final(log)@ == old(log)@.push(
            TokenUsageView {
                date: date@,
                prompt_tokens: prompt,
                completion_tokens: completion,
                model: model@,
            },
        ),
{
    let row = TokenUsage {
        date: String::from_str(date),
        prompt_tokens: prompt,
        completion_tokens: completion,
        model: String::from_str(model),
    };
    log.rows.push(row);
    assert(log@ =~= old(log)@.push(row@));
}

/// Where in `dates`, sorted ascending, `date` stands or would stand.
fn position_of(dates: &Vec<String>, date: &str) -> (r: (usize, bool))
    requires
        forall|i: int, j: int|
            0 <= i < j < dates.len() ==> date_before((#[trigger] dates[i])@, (#[trigger] dates[j])@),
    ensures
        r.0 <= dates.len(),
        forall|i: int| 0 <= i < r.0 ==> date_before((#[trigger] dates[i])@, date@),
        r.1 ==> r.0 < dates.len() && dates[r.0 as int]@ == date@,
        !r.1 ==> forall|i: int| r.0 <= i < dates.len() ==> date_before(date@, (#[trigger] dates[i])@),
{
    let mut j: usize = 0;
    while j < dates.len()
        invariant
            j <= dates.len(),
            forall|i: int| 0 <= i < j ==> date_before((#[trigger] dates[i])@, date@),
            forall|i: int, k: int|
                0 <= i < k < dates.len() ==> date_before(
                    (#[trigger] dates[i])@,
                    (#[trigger] dates[k])@,
                ),
        decreases dates.len() - j,
    {
        match order_of(dates[j].as_str().as_bytes(), date.as_bytes()) {
            DateOrder::Earlier => {
                j = j + 1;
            },
            DateOrder::Same => {
                proof {
                    lemma_date_of_bytes(dates[j as int]@, date@);
                }
                return (j, true);
            },
            DateOrder::Later => {
                assert forall|i: int| j <= i < dates.len() implies date_before(
                    date@,
                    (#[trigger] dates[i])@,
                ) by {
                    if i > j {
                        lemma_bytes_before_transitive(
                            encode_utf8(date@),
                            encode_utf8(dates[j as int]@),
                            encode_utf8(dates[i]@),
                        );
                    }
                }
                return (j, false);
            },
        }
    }
    (j, false)
}

/// The dates stand in ascending order.
spec fn ascending(dates: Seq<String>) -> bool {
    forall|i: int, j: int|
        0 <= i < j < dates.len() ==> date_before((#[trigger] dates[i])@, (#[trigger] dates[j])@)
}

/// Each listed day is a recorded one, and its sums are those of `rows`.
spec fn sums_match(
    rows: Seq<TokenUsageView>,
    dates: Seq<String>,
    prompts: Seq<i128>,
    completions: Seq<i128>,
) -> bool {
    &&& dates.len() == prompts.len()
    &&& dates.len() == completions.len()
    &&& forall|k: int|
        0 <= k < dates.len() ==> recorded(rows, (#[trigger] dates[k])@) && prompts[k]
            == prompt_total(rows, dates[k]@) && completions[k] == completion_total(
            rows,
            dates[k]@,
        )
}

/// `date` is one of `dates`.
spec fn listed(dates: Seq<String>, date: Seq<char>) -> bool {
    exists|k: int| 0 <= k < dates.len() && (#[trigger] dates[k])@ == date
}

/// The day of every row is listed.
spec fn all_listed(rows: Seq<TokenUsageView>, dates: Seq<String>) -> bool {
    forall|i: int| 0 <= i < rows.len() ==> listed(dates, (#[trigger] rows[i]).date)
}

/// The days and their sums over the first rows of a log.
spec fn sums_of(
    rows: Seq<TokenUsageView>,
    dates: Seq<String>,
    prompts: Seq<i128>,
    completions: Seq<i128>,
) -> bool {
    &&& ascending(dates)
    &&& sums_match(rows, dates, prompts, completions)
    &&& all_listed(rows, dates)
}

/// In an ascending list no day stands twice.
proof fn lemma_ascending_distinct(dates: Seq<String>, i: int, j: int)
    requires
        ascending(dates),
        0 <= i < dates.len(),
        0 <= j < dates.len(),
        i != j,
    ensures
        dates[i]@ != dates[j]@,
{
    lemma_bytes_before_irreflexive(encode_utf8(dates[i]@));
    if i < j {
        assert(date_before(dates[i]@, dates[j]@));
    } else {
        assert(date_before(dates[j]@, dates[i]@));
    }
}

/// A row for a day that is listed adds its tokens to the sums of that day.
proof fn lemma_merge_day(
    seen: Seq<TokenUsageView>,
    row: TokenUsageView,
    dates: Seq<String>,
    prompts: Seq<i128>,
    completions: Seq<i128>,
    at: int,
)
    requires
        sums_of(seen, dates, prompts, completions),
        0 <= at < dates.len(),
        dates[at]@ == row.date,
        seen.len() < usize::MAX,
    ensures
        i128::MIN <= prompts[at] + row.prompt_tokens <= i128::MAX,
        i128::MIN <= completions[at] + row.completion_tokens <= i128::MAX,
        sums_of(
            seen.push(row),
            dates,
            prompts.update(at, (prompts[at] + row.prompt_tokens) as i128),
            completions.update(at, (completions[at] + row.completion_tokens) as i128),
        ),
{
    let more = seen.push(row);
    let new_prompts = prompts.update(at, (prompts[at] + row.prompt_tokens) as i128);
    let new_completions = completions.update(at, (completions[at] + row.completion_tokens) as i128);
    lemma_totals_bounded(seen, row.date);
    assert(seen.len() * 0x8000_0000_0000_0000 <= 0xffff_ffff_ffff_fffe * 0x8000_0000_0000_0000)
        by (nonlinear_arith)
        requires
            seen.len() <= 0xffff_ffff_ffff_fffe,
    ;
    assert(sums_match(more, dates, new_prompts, new_completions)) by {
        assert forall|k: int| 0 <= k < dates.len() implies recorded(more, (#[trigger] dates[k])@)
            && new_prompts[k] == prompt_total(more, dates[k]@) && new_completions[k]
            == completion_total(more, dates[k]@) by {
            lemma_totals_push(seen, row, dates[k]@);
            if k != at {
                lemma_ascending_distinct(dates, k, at);
            }
        }
    }
    assert(all_listed(more, dates)) by {
        assert forall|i: int| 0 <= i < more.len() implies listed(dates, (#[trigger] more[i]).date) by {
            if i < seen.len() {
                assert(more[i] == seen[i]);
                assert(listed(dates, seen[i].date));
            } else {
                assert(dates[at]@ == more[i].date);
            }
        }
    }
}

/// A row for a day that is not listed opens that day, at its place in the
/// order, with its own tokens.
proof fn lemma_insert_day(
    seen: Seq<TokenUsageView>,
    row: TokenUsageView,
    dates: Seq<String>,
    prompts: Seq<i128>,
    completions: Seq<i128>,
    at: int,
    date: String,
)
    requires
        sums_of(seen, dates, prompts, completions),
        0 <= at <= dates.len(),
        date@ == row.date,
        forall|i: int| 0 <= i < at ==> date_before((#[trigger] dates[i])@, row.date),
        forall|i: int| at <= i < dates.len() ==> date_before(row.date, (#[trigger] dates[i])@),
    ensures
        sums_of(
            seen.push(row),
            dates.insert(at, date),
            prompts.insert(at, row.prompt_tokens as i128),
            completions.insert(at, row.completion_tokens as i128),
        ),
{
    let more = seen.push(row);
    let new_dates = dates.insert(at, date);
    let new_prompts = prompts.insert(at, row.prompt_tokens as i128);
    let new_completions = completions.insert(at, row.completion_tokens as i128);
    lemma_bytes_before_irreflexive(encode_utf8(row.date));
    assert(!listed(dates, row.date)) by {
        if listed(dates, row.date) {
            let k = choose|k: int| 0 <= k < dates.len() && (#[trigger] dates[k])@ == row.date;
            if k < at {
                assert(date_before(dates[k]@, row.date));
            } else {
                assert(date_before(row.date, dates[k]@));
            }
        }
    }
    assert(!recorded(seen, row.date)) by {
        if recorded(seen, row.date) {
            let i = choose|i: int| 0 <= i < seen.len() && (#[trigger] seen[i]).date == row.date;
            assert(listed(dates, seen[i].date));
        }
    }
    lemma_unrecorded_totals(seen, row.date);
    assert(ascending(new_dates)) by {
        assert forall|i: int, j: int| 0 <= i < j < new_dates.len() implies date_before(
            (#[trigger] new_dates[i])@,
            (#[trigger] new_dates[j])@,
        ) by {
            if j < at {
                assert(new_dates[i] == dates[i] && new_dates[j] == dates[j]);
            } else if j == at {
                assert(new_dates[i] == dates[i]);
            } else if i < at {
                assert(new_dates[i] == dates[i] && new_dates[j] == dates[j - 1]);
            } else if i == at {
                assert(new_dates[j] == dates[j - 1]);
            } else {
                assert(new_dates[i] == dates[i - 1] && new_dates[j] == dates[j - 1]);
            }
        }
    }
    assert(sums_match(more, new_dates, new_prompts, new_completions)) by {
        assert forall|k: int| 0 <= k < new_dates.len() implies recorded(
            more,
            (#[trigger] new_dates[k])@,
        ) && new_prompts[k] == prompt_total(more, new_dates[k]@) && new_completions[k]
            == completion_total(more, new_dates[k]@) by {
            lemma_totals_push(seen, row, new_dates[k]@);
            if k < at {
                assert(new_dates[k] == dates[k]);
                assert(new_prompts[k] == prompts[k]);
                assert(new_completions[k] == completions[k]);
                assert(listed(dates, dates[k]@));
            } else if k > at {
                assert(new_dates[k] == dates[k - 1]);
                assert(new_prompts[k] == prompts[k - 1]);
                assert(new_completions[k] == completions[k - 1]);
                assert(listed(dates, dates[k - 1]@));
            }
        }
    }
    assert(all_listed(more, new_dates)) by {
        assert forall|i: int| 0 <= i < more.len() implies listed(
            new_dates,
            (#[trigger] more[i]).date,
        ) by {
            if i < seen.len() {
                assert(more[i] == seen[i]);
                assert(listed(dates, seen[i].date));
                let k = choose|k: int| 0 <= k < dates.len() && (#[trigger] dates[k])@ == seen[i].date;
                if k < at {
                    assert(new_dates[k]@ == more[i].date);
                } else {
                    assert(new_dates[k + 1]@ == more[i].date);
                }
            } else {
                assert(new_dates[at]@ == more[i].date);
            }
        }
    }
}

/// Sums that all fit an `i64` make the aggregate of the log.
proof fn lemma_sums_are_aggregate(
    rows: Seq<TokenUsageView>,
    dates: Seq<String>,
    prompts: Seq<i128>,
    completions: Seq<i128>,
    stats: Seq<TokenStatView>,
)
    requires
        sums_of(rows, dates, prompts, completions),
        stats.len() == dates.len(),
        forall|k: int|
            0 <= k < dates.len() ==> (#[trigger] stats[k]).date == dates[k]@
                && stats[k].prompt_tokens == prompts[k] && stats[k].completion_tokens
                == completions[k],
    ensures
        totals_fit(rows),
        is_aggregate(rows, stats),
{
    assert forall|date: Seq<char>| #[trigger] recorded(rows, date) implies i64::MIN
        <= prompt_total(rows, date) <= i64::MAX && i64::MIN <= completion_total(rows, date)
        <= i64::MAX by {
        let i = choose|i: int| 0 <= i < rows.len() && (#[trigger] rows[i]).date == date;
        assert(listed(dates, rows[i].date));
        let k = choose|k: int| 0 <= k < dates.len() && (#[trigger] dates[k])@ == rows[i].date;
        assert(stats[k].prompt_tokens == prompt_total(rows, date));
        assert(stats[k].completion_tokens == completion_total(rows, date));
    }
    assert forall|i: int, j: int| 0 <= i < j < stats.len() implies date_before(
        (#[trigger] stats[i]).date,
        (#[trigger] stats[j]).date,
    ) by {
        assert(date_before(dates[i]@, dates[j]@));
    }
    assert forall|k: int| 0 <= k < stats.len() implies recorded(rows, (#[trigger] stats[k]).date)
        && stats[k].prompt_tokens == prompt_total(rows, stats[k].date)
        && stats[k].completion_tokens == completion_total(rows, stats[k].date) by {
        assert(recorded(rows, dates[k]@));
    }
    assert forall|i: int| 0 <= i < rows.len() implies has_day(stats, (#[trigger] rows[i]).date) by {
        assert(listed(dates, rows[i].date));
        let k = choose|k: int| 0 <= k < dates.len() && (#[trigger] dates[k])@ == rows[i].date;
        assert(stats[k].date == rows[i].date);
    }
}

/// The sums per day of all recorded requests, in ascending order of the
/// dates; `Overflow` where the tokens of some day do not fit an `i64`.
pub fn get_aggregated_stats(log: &UsageLog) -> (r: Result<Vec<TokenStat>, UsageError>)
    ensures
        match r {
            Ok(stats) => totals_fit(log@) && is_aggregate(log@, stat_views(stats@)),
            Err(UsageError::Overflow) => !totals_fit(log@),
        },
{
    let rows = &log.rows;
    let mut dates: Vec<String> = Vec::new();
    let mut prompts: Vec<i128> = Vec::new();
    let mut completions: Vec<i128> = Vec::new();
    let mut n: usize = 0;
    assert(log@.take(0) =~= Seq::<TokenUsageView>::empty());
    while n < rows.len()
        invariant
            n <= rows.len(),
            log@ == usage_views(rows@),
            sums_of(log@.take(n as int), dates@, prompts@, completions@),
        decreases rows.len() - n,
    {
        let ghost seen = log@.take(n as int);
        let ghost row = rows[n as int]@;
        assert(log@.take(n as int + 1) =~= seen.push(row));
        let (at, found) = position_of(&dates, rows[n].date.as_str());
        if found {
            proof {
                lemma_merge_day(seen, row, dates@, prompts@, completions@, at as int);
            }
            let p = prompts[at] + rows[n].prompt_tokens as i128;
            let c = completions[at] + rows[n].completion_tokens as i128;
            prompts.set(at, p);
            completions.set(at, c);
        } else {
            let date = rows[n].date.clone();
            proof {
                lemma_insert_day(seen, row, dates@, prompts@, completions@, at as int, date);
            }
            dates.insert(at, date);
            prompts.insert(at, rows[n].prompt_tokens as i128);
            completions.insert(at, rows[n].completion_tokens as i128);
        }
        n = n + 1;
    }
    assert(log@.take(n as int) =~= log@);
    let mut stats: Vec<TokenStat> = Vec::new();
    let mut k: usize = 0;
    while k < dates.len()
        invariant
            k <= dates.len(),
            stats.len() == k,
            sums_of(log@, dates@, prompts@, completions@),
            forall|i: int|
                0 <= i < k ==> (#[trigger] stats[i])@.date == dates[i]@
                    && stats[i]@.prompt_tokens == prompts[i] && stats[i]@.completion_tokens
                    == completions[i],
        decreases dates.len() - k,
    {
        let p = prompts[k];
        let c = completions[k];
        if p < i64::MIN as i128 || p > i64::MAX as i128 || c < i64::MIN as i128 || c
            > i64::MAX as i128 {
            assert(recorded(log@, dates[k as int]@));
            return Err(UsageError::Overflow);
        }
        stats.push(
            TokenStat { date: dates[k].clone(), prompt_tokens: p as i64, completion_tokens: c as i64 },
        );
        k = k + 1;
    }
    proof {
        let views = stat_views(stats@);
        assert forall|i: int| 0 <= i < dates.len() implies (#[trigger] views[i]).date == dates[i]@
            && views[i].prompt_tokens == prompts[i] && views[i].completion_tokens
            == completions[i] by {
            assert(views[i] == stats[i]@);
        }
        lemma_sums_are_aggregate(log@, dates@, prompts@, completions@, views);
    }
    Ok(stats)
}

} // verus!
