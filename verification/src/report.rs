//! The text that is handed to Prometheus.
use vstd::prelude::*;

use crate::config::Website;
use crate::metrics::{MetricData, MetricResult};
use crate::text;

verus! {

/// The line that reports `value` under `name` for one website.
pub open spec fn metric_line(name: Seq<char>, website: Seq<char>, value: nat) -> Seq<char> {
    "availcheck_"@ + name + "{website=\""@ + website + "\"} "@ + text::decimal(value) + "\n"@
}

/// The lines that report `values` under `name`, one for each website that has a value.
pub open spec fn metric_lines(
    name: Seq<char>,
    websites: Seq<(Website, MetricResult)>,
    values: Seq<Option<u128>>,
) -> Seq<char>
    decreases websites.len(),
{
    if websites.len() == 0 {
        Seq::empty()
    } else {
        let rest = metric_lines(name, websites.drop_last(), values.drop_last());
        match values.last() {
            Some(value) => rest + metric_line(name, websites.last().0.name@, value as nat),
            None => rest,
        }
    }
}

/// Appends a line for each website on which `f` finds a value.
pub fn add_metrics_to_string<F: Fn(&MetricResult) -> Option<u128>>(
    websites: &Vec<(Website, MetricResult)>,
    s: &mut String,
    name: &str,
    f: F,
)
    requires
        forall|i: int| 0 <= i < websites@.len() ==> call_requires(f, (&#[trigger] websites@[i].1,)),
    ensures
        exists|values: Seq<Option<u128>>| {
            &&& values.len() == websites@.len()
            &&& forall|i: int|
                0 <= i < websites@.len() ==> call_ensures(
                    f,
                    (&websites@[i].1,),
                    #[trigger] values[i],
                )
            &&& final(s)@ == old(s)@ + #[trigger] metric_lines(name@, websites@, values)
        },
{
    let ghost mut values: Seq<Option<u128>> = Seq::empty();
    let ghost before = s@;
    let mut i: usize = 0;
    while i < websites.len()
        invariant
            forall|j: int|
                0 <= j < websites@.len() ==> call_requires(f, (&#[trigger] websites@[j].1,)),
            i <= websites.len(),
            values.len() == i,
            forall|j: int|
                0 <= j < i ==> call_ensures(f, (&websites@[j].1,), #[trigger] values[j]),
            s@ == before + metric_lines(name@, websites@.take(i as int), values),
        decreases websites.len() - i,
    {
        let value = f(&websites[i].1);
        let ghost earlier = values;
        proof {
            values = values.push(value);
            assert(websites@.take(i + 1).drop_last() =~= websites@.take(i as int));
            assert(values.drop_last() =~= earlier);
        }
        if let Some(v) = value {
            s.append("availcheck_");
            s.append(name);
            s.append("{website=\"");
            s.append(websites[i].0.name.as_str());
            s.append("\"} ");
            text::push_decimal(s, v);
            s.append("\n");
            assert(s@ =~= before + metric_lines(name@, websites@.take(i + 1), values));
        }
        i += 1;
    }
    assert(websites@.take(i as int) =~= websites@);
}

/// Whether the probe failed, as a number.
pub open spec fn error_value(result: MetricResult) -> Option<u128> {
    if result is Error {
        Some(1)
    } else {
        Some(0)
    }
}

/// Whether the probe took too long, as a number.
pub open spec fn timeout_value(result: MetricResult) -> Option<u128> {
    if result is Timeout {
        Some(1)
    } else {
        Some(0)
    }
}

/// The status code of the answer, if there was one.
pub open spec fn status_code_value(result: MetricResult) -> Option<u128> {
    match result {
        MetricResult::Success(data) => match data.status_code {
            Some(code) => Some(code as u128),
            None => None,
        },
        _ => None,
    }
}

/// The number of milliseconds until the answer had arrived, if it did.
pub open spec fn response_time_value(result: MetricResult) -> Option<u128> {
    match result {
        MetricResult::Success(data) => match data.response_time {
            Some(span) => Some((span.nanos / 1_000_000) as u128),
            None => None,
        },
        _ => None,
    }
}

/// The number of bytes in the body of the answer, if there was one.
pub open spec fn response_size_value(result: MetricResult) -> Option<u128> {
    match result {
        MetricResult::Success(data) => match data.response_size {
            Some(size) => Some(size as u128),
            None => None,
        },
        _ => None,
    }
}

/// The lines for a metric whose value `f` gives for each result.
pub open spec fn metric_section(
    name: Seq<char>,
    websites: Seq<(Website, MetricResult)>,
    f: spec_fn(MetricResult) -> Option<u128>,
) -> Seq<char> {
    metric_lines(name, websites, Seq::new(websites.len(), |i: int| f(websites[i].1)))
}

/// The whole report: the sections of the five metrics, one after the other.
pub open spec fn report(websites: Seq<(Website, MetricResult)>) -> Seq<char> {
    metric_section("errors"@, websites, |r: MetricResult| error_value(r))
        + metric_section("timeouts"@, websites, |r: MetricResult| timeout_value(r))
        + metric_section("status_code"@, websites, |r: MetricResult| status_code_value(r))
        + metric_section("response_time_ms"@, websites, |r: MetricResult| response_time_value(r))
        + metric_section("response_size"@, websites, |r: MetricResult| response_size_value(r))
}

fn error_flag(msg: &MetricResult) -> (value: Option<u128>)
    ensures
        value == error_value(*msg),
{
    if let MetricResult::Error = msg {
        Some(1)
    } else {
        Some(0)
    }
}

fn timeout_flag(msg: &MetricResult) -> (value: Option<u128>)
    ensures
        value == timeout_value(*msg),
{
    if let MetricResult::Timeout = msg {
        Some(1)
    } else {
        Some(0)
    }
}

fn status_code(msg: &MetricResult) -> (value: Option<u128>)
    ensures
        value == status_code_value(*msg),
{
    if let MetricResult::Success(data) = msg {
        match data.status_code {
            Some(code) => Some(code as u128),
            None => None,
        }
    } else {
        None
    }
}

fn response_time_ms(msg: &MetricResult) -> (value: Option<u128>)
    ensures
        value == response_time_value(*msg),
{
    if let MetricResult::Success(data) = msg {
        match data.response_time {
            Some(span) => Some(span.as_millis()),
            None => None,
        }
    } else {
        None
    }
}

fn response_size(msg: &MetricResult) -> (value: Option<u128>)
    ensures
        value == response_size_value(*msg),
{
    if let MetricResult::Success(data) = msg {
        match data.response_size {
            Some(size) => Some(size as u128),
            None => None,
        }
    } else {
        None
    }
}

/// If `f` computes `value_of`, then the lines that are added with it are the section of the
/// metric `value_of`.
proof fn lemma_section<F: Fn(&MetricResult) -> Option<u128>>(
    f: F,
    value_of: spec_fn(MetricResult) -> Option<u128>,
    name: Seq<char>,
    websites: Seq<(Website, MetricResult)>,
    values: Seq<Option<u128>>,
)
    requires
        values.len() == websites.len(),
        forall|i: int|
            0 <= i < websites.len() ==> call_ensures(f, (&websites[i].1,), #[trigger] values[i]),
        forall|result: MetricResult, value: Option<u128>|
            call_ensures(f, (&result,), value) ==> value == value_of(result),
    ensures
        metric_lines(name, websites, values) == metric_section(name, websites, value_of),
{
    assert(values =~= Seq::new(websites.len(), |i: int| value_of(websites[i].1)));
}

/// Appends the section of the metric `value_of`, which `f` computes.
fn add_section<F: Fn(&MetricResult) -> Option<u128>>(
    websites: &Vec<(Website, MetricResult)>,
    s: &mut String,
    name: &str,
    f: F,
    Ghost(value_of): Ghost<spec_fn(MetricResult) -> Option<u128>>,
)
    requires
        forall|result: MetricResult| call_requires(f, (&result,)),
        forall|result: MetricResult, value: Option<u128>|
            call_ensures(f, (&result,), value) ==> value == value_of(result),
    ensures
        final(s)@ == old(s)@ + metric_section(name@, websites@, value_of),
{
    add_metrics_to_string(websites, s, name, f);
    proof {
        let values = choose|values: Seq<Option<u128>>| {
            &&& values.len() == websites@.len()
            &&& forall|i: int|
                0 <= i < websites@.len() ==> call_ensures(
                    f,
                    (&websites@[i].1,),
                    #[trigger] values[i],
                )
            &&& s@ == old(s)@ + #[trigger] metric_lines(name@, websites@, values)
        };
        lemma_section(f, value_of, name@, websites@, values);
    }
}

/// Writes the report on the last results of all websites.
pub fn gen_metrics(websites: &Vec<(Website, MetricResult)>) -> (res: String)
    ensures
        res@ == report(websites@),
{
    let mut res = String::new();
    add_section(websites, &mut res, "errors", error_flag, Ghost(|r| error_value(r)));
    add_section(websites, &mut res, "timeouts", timeout_flag, Ghost(|r| timeout_value(r)));
    add_section(websites, &mut res, "status_code", status_code, Ghost(|r| status_code_value(r)));
    add_section(
        websites,
        &mut res,
        "response_time_ms",
        response_time_ms,
        Ghost(|r| response_time_value(r)),
    );
    add_section(
        websites,
        &mut res,
        "response_size",
        response_size,
        Ghost(|r| response_size_value(r)),
    );
    assert(res@ =~= report(websites@));
    res
}

/// `line` stands somewhere in `text`.
pub open spec fn shows(text: Seq<char>, line: Seq<char>) -> bool {
    exists|before: Seq<char>, after: Seq<char>| text == #[trigger] (before + line + after)
}

/// A text that stands in a part of a longer text stands in the longer text.
proof fn lemma_shows_in(front: Seq<char>, part: Seq<char>, back: Seq<char>, line: Seq<char>)
    requires
        shows(part, line),
    ensures
        shows(front + part + back, line),
{
    let (before, after) = choose|before: Seq<char>, after: Seq<char>|
        part == #[trigger] (before + line + after);
    assert(front + part + back =~= (front + before) + line + (after + back));
}

/// The lines of a metric hold a line for each website that has a value.
proof fn lemma_lines_show(
    name: Seq<char>,
    websites: Seq<(Website, MetricResult)>,
    values: Seq<Option<u128>>,
    i: int,
)
    requires
        values.len() == websites.len(),
        0 <= i < websites.len(),
        values[i] is Some,
    ensures
        shows(
            metric_lines(name, websites, values),
            metric_line(name, websites[i].0.name@, values[i]->0 as nat),
        ),
    decreases websites.len(),
{
    let line = metric_line(name, websites[i].0.name@, values[i]->0 as nat);
    let rest = metric_lines(name, websites.drop_last(), values.drop_last());
    let all = metric_lines(name, websites, values);
    let nothing = Seq::<char>::empty();
    if i == websites.len() - 1 {
        assert(all =~= rest + line + nothing);
    } else {
        lemma_lines_show(name, websites.drop_last(), values.drop_last(), i);
        if let Some(value) = values.last() {
            let last = metric_line(name, websites.last().0.name@, value as nat);
            lemma_shows_in(nothing, rest, last, line);
            assert(all =~= nothing + rest + last);
        }
    }
}

/// The section of a metric holds a line for each website that has a value.
pub proof fn law_section_is_complete(
    name: Seq<char>,
    websites: Seq<(Website, MetricResult)>,
    f: spec_fn(MetricResult) -> Option<u128>,
    i: int,
)
    requires
        0 <= i < websites.len(),
    ensures
        f(websites[i].1) matches Some(value) ==> shows(
            metric_section(name, websites, f),
            metric_line(name, websites[i].0.name@, value as nat),
        ),
{
    if let Some(value) = f(websites[i].1) {
        lemma_lines_show(
            name,
            websites,
            Seq::new(websites.len(), |j: int| f(websites[j].1)),
            i,
        );
    }
}

/// `text` says of `website` what `result` has to say: one line for each metric that has a value.
pub open spec fn tells(text: Seq<char>, website: Seq<char>, result: MetricResult) -> bool {
    &&& error_value(result) matches Some(v) ==> shows(text, metric_line("errors"@, website, v as nat))
    &&& timeout_value(result) matches Some(v) ==> shows(
        text,
        metric_line("timeouts"@, website, v as nat),
    )
    &&& status_code_value(result) matches Some(v) ==> shows(
        text,
        metric_line("status_code"@, website, v as nat),
    )
    &&& response_time_value(result) matches Some(v) ==> shows(
        text,
        metric_line("response_time_ms"@, website, v as nat),
    )
    &&& response_size_value(result) matches Some(v) ==> shows(
        text,
        metric_line("response_size"@, website, v as nat),
    )
}

/// The report tells the result of every website.
pub proof fn law_report_is_complete(websites: Seq<(Website, MetricResult)>, i: int)
    requires
        0 <= i < websites.len(),
    ensures
        tells(report(websites), websites[i].0.name@, websites[i].1),
{
    let website = websites[i].0.name@;
    let result = websites[i].1;
    let errors = metric_section("errors"@, websites, |r: MetricResult| error_value(r));
    let timeouts = metric_section("timeouts"@, websites, |r: MetricResult| timeout_value(r));
    let codes = metric_section("status_code"@, websites, |r: MetricResult| status_code_value(r));
    let times = metric_section(
        "response_time_ms"@,
        websites,
        |r: MetricResult| response_time_value(r),
    );
    let sizes = metric_section("response_size"@, websites, |r: MetricResult| response_size_value(r));
    let whole = report(websites);
    let nothing = Seq::<char>::empty();
    law_section_is_complete("errors"@, websites, |r: MetricResult| error_value(r), i);
    law_section_is_complete("timeouts"@, websites, |r: MetricResult| timeout_value(r), i);
    law_section_is_complete("status_code"@, websites, |r: MetricResult| status_code_value(r), i);
    law_section_is_complete(
        "response_time_ms"@,
        websites,
        |r: MetricResult| response_time_value(r),
        i,
    );
    law_section_is_complete("response_size"@, websites, |r: MetricResult| response_size_value(r), i);
    if let Some(v) = error_value(result) {
        lemma_shows_in(
            nothing,
            errors,
            timeouts + codes + times + sizes,
            metric_line("errors"@, website, v as nat),
        );
        assert(whole =~= nothing + errors + (timeouts + codes + times + sizes));
    }
    if let Some(v) = timeout_value(result) {
        lemma_shows_in(
            errors,
            timeouts,
            codes + times + sizes,
            metric_line("timeouts"@, website, v as nat),
        );
        assert(whole =~= errors + timeouts + (codes + times + sizes));
    }
    if let Some(v) = status_code_value(result) {
        lemma_shows_in(
            errors + timeouts,
            codes,
            times + sizes,
            metric_line("status_code"@, website, v as nat),
        );
        assert(whole =~= (errors + timeouts) + codes + (times + sizes));
    }
    if let Some(v) = response_time_value(result) {
        lemma_shows_in(
            errors + timeouts + codes,
            times,
            sizes,
            metric_line("response_time_ms"@, website, v as nat),
        );
        assert(whole =~= (errors + timeouts + codes) + times + sizes);
    }
    if let Some(v) = response_size_value(result) {
        lemma_shows_in(
            errors + timeouts + codes + times,
            sizes,
            nothing,
            metric_line("response_size"@, website, v as nat),
        );
        assert(whole =~= (errors + timeouts + codes + times) + sizes + nothing);
    }
}

/// Every result counts as an error, as a timeout, or as neither, and never as both. Measurements
/// are there only if it counts as neither.
pub proof fn law_flags_exclude_each_other(result: MetricResult)
    ensures
        error_value(result) == Some(1u128) || error_value(result) == Some(0u128),
        timeout_value(result) == Some(1u128) || timeout_value(result) == Some(0u128),
        !(error_value(result) == Some(1u128) && timeout_value(result) == Some(1u128)),
        result is Success <==> error_value(result) == Some(0u128) && timeout_value(result) == Some(
            0u128,
        ),
        result !is Success ==> {
            &&& status_code_value(result) is None
            &&& response_time_value(result) is None
            &&& response_size_value(result) is None
        },
{
}

/// The lines of a metric, one after the other: `availcheck_`, the name of the metric, the name of
/// the website and the value, for each website that has one, and nothing else.
pub proof fn law_lines_in_full(
    name: Seq<char>,
    websites: Seq<(Website, MetricResult)>,
    values: Seq<Option<u128>>,
)
    requires
        values.len() == websites.len(),
    ensures
        metric_lines(name, websites, values) == Seq::new(
            websites.len(),
            |i: int|
                match values[i] {
                    Some(value) => "availcheck_"@ + name + "{website=\""@ + websites[i].0.name@
                        + "\"} "@ + text::decimal(value as nat) + "\n"@,
                    None => Seq::<char>::empty(),
                },
        ).flatten(),
    decreases websites.len(),
{
    let lines = Seq::new(
        websites.len(),
        |i: int|
            match values[i] {
                Some(value) => "availcheck_"@ + name + "{website=\""@ + websites[i].0.name@ + "\"} "@
                    + text::decimal(value as nat) + "\n"@,
                None => Seq::<char>::empty(),
            },
    );
    lines.lemma_flatten_and_flatten_alt_are_equivalent();
    if websites.len() > 0 {
        let fewer = websites.drop_last();
        let fewer_values = values.drop_last();
        law_lines_in_full(name, fewer, fewer_values);
        let fewer_lines = Seq::new(
            fewer.len(),
            |i: int|
                match fewer_values[i] {
                    Some(value) => "availcheck_"@ + name + "{website=\""@ + fewer[i].0.name@ + "\"} "@
                        + text::decimal(value as nat) + "\n"@,
                    None => Seq::<char>::empty(),
                },
        );
        fewer_lines.lemma_flatten_and_flatten_alt_are_equivalent();
        assert(lines.drop_last() =~= fewer_lines);
        assert(metric_lines(name, websites, values) =~= fewer_lines.flatten() + lines.last());
    }
}

/// The texts that a report consists of, put together from smaller ones.
proof fn lemma_pieces()
    ensures
        "availcheck_"@ + "errors"@ + "{website=\""@ == "availcheck_errors{website=\""@,
        "availcheck_"@ + "timeouts"@ + "{website=\""@ == "availcheck_timeouts{website=\""@,
        "availcheck_"@ + "status_code"@ + "{website=\""@ == "availcheck_status_code{website=\""@,
        "availcheck_"@ + "response_time_ms"@ + "{website=\""@
            == "availcheck_response_time_ms{website=\""@,
        "availcheck_"@ + "response_size"@ + "{website=\""@ == "availcheck_response_size{website=\""@,
        text::decimal(0) == "0"@,
        text::decimal(1) == "1"@,
{
    reveal_strlit("availcheck_");
    reveal_strlit("errors");
    reveal_strlit("timeouts");
    reveal_strlit("status_code");
    reveal_strlit("response_time_ms");
    reveal_strlit("response_size");
    reveal_strlit("{website=\"");
    reveal_strlit("availcheck_errors{website=\"");
    reveal_strlit("availcheck_timeouts{website=\"");
    reveal_strlit("availcheck_status_code{website=\"");
    reveal_strlit("availcheck_response_time_ms{website=\"");
    reveal_strlit("availcheck_response_size{website=\"");
    reveal_strlit("0");
    reveal_strlit("1");
    assert("availcheck_"@ + "errors"@ + "{website=\""@ =~= "availcheck_errors{website=\""@);
    assert("availcheck_"@ + "timeouts"@ + "{website=\""@ =~= "availcheck_timeouts{website=\""@);
    assert("availcheck_"@ + "status_code"@ + "{website=\""@ =~= "availcheck_status_code{website=\""@);
    assert("availcheck_"@ + "response_time_ms"@ + "{website=\""@
        =~= "availcheck_response_time_ms{website=\""@);
    assert("availcheck_"@ + "response_size"@ + "{website=\""@
        =~= "availcheck_response_size{website=\""@);
    assert(text::decimal(0) =~= "0"@);
    assert(text::decimal(1) =~= "1"@);
}

/// The whole report, read off the results. For every website it says whether its probe failed and
/// whether it took too long, and then, for those that answered, the status code, the milliseconds
/// and the bytes that were measured, whatever they are. It says nothing else.
pub proof fn law_report_in_full(websites: Seq<(Website, MetricResult)>)
    ensures
        report(websites) == websites.map_values(
            |w: (Website, MetricResult)|
                "availcheck_errors{website=\""@ + w.0.name@ + "\"} "@ + (if w.1 is Error {
                    "1"@
                } else {
                    "0"@
                }) + "\n"@,
        ).flatten() + websites.map_values(
            |w: (Website, MetricResult)|
                "availcheck_timeouts{website=\""@ + w.0.name@ + "\"} "@ + (if w.1 is Timeout {
                    "1"@
                } else {
                    "0"@
                }) + "\n"@,
        ).flatten() + websites.map_values(
            |w: (Website, MetricResult)|
                if w.1 is Success && w.1->Success_0.status_code is Some {
                    "availcheck_status_code{website=\""@ + w.0.name@ + "\"} "@ + text::decimal(
                        w.1->Success_0.status_code->0 as nat,
                    ) + "\n"@
                } else {
                    Seq::empty()
                },
        ).flatten() + websites.map_values(
            |w: (Website, MetricResult)|
                if w.1 is Success && w.1->Success_0.response_time is Some {
                    "availcheck_response_time_ms{website=\""@ + w.0.name@ + "\"} "@ + text::decimal(
                        (w.1->Success_0.response_time->0.nanos / 1_000_000) as nat,
                    ) + "\n"@
                } else {
                    Seq::empty()
                },
        ).flatten() + websites.map_values(
            |w: (Website, MetricResult)|
                if w.1 is Success && w.1->Success_0.response_size is Some {
                    "availcheck_response_size{website=\""@ + w.0.name@ + "\"} "@ + text::decimal(
                        w.1->Success_0.response_size->0 as nat,
                    ) + "\n"@
                } else {
                    Seq::empty()
                },
        ).flatten(),
{
    lemma_pieces();
    let n = websites.len();
    let errors = Seq::new(n, |i: int| error_value(websites[i].1));
    let timeouts = Seq::new(n, |i: int| timeout_value(websites[i].1));
    let codes = Seq::new(n, |i: int| status_code_value(websites[i].1));
    let times = Seq::new(n, |i: int| response_time_value(websites[i].1));
    let sizes = Seq::new(n, |i: int| response_size_value(websites[i].1));
    assert(metric_section("errors"@, websites, |r: MetricResult| error_value(r)) == metric_lines(
        "errors"@,
        websites,
        errors,
    )) by {
        assert(errors =~= Seq::new(n, |i: int| (|r: MetricResult| error_value(r))(websites[i].1)));
    }
    assert(metric_section("timeouts"@, websites, |r: MetricResult| timeout_value(r)) == metric_lines(
        "timeouts"@,
        websites,
        timeouts,
    )) by {
        assert(timeouts =~= Seq::new(n, |i: int| (|r: MetricResult| timeout_value(r))(websites[i].1)));
    }
    assert(metric_section("status_code"@, websites, |r: MetricResult| status_code_value(r)) == metric_lines(
        "status_code"@,
        websites,
        codes,
    )) by {
        assert(codes =~= Seq::new(n, |i: int| (|r: MetricResult| status_code_value(r))(websites[i].1)));
    }
    assert(metric_section("response_time_ms"@, websites, |r: MetricResult| response_time_value(r)) == metric_lines(
        "response_time_ms"@,
        websites,
        times,
    )) by {
        assert(times =~= Seq::new(n, |i: int| (|r: MetricResult| response_time_value(r))(websites[i].1)));
    }
    assert(metric_section("response_size"@, websites, |r: MetricResult| response_size_value(r)) == metric_lines(
        "response_size"@,
        websites,
        sizes,
    )) by {
        assert(sizes =~= Seq::new(n, |i: int| (|r: MetricResult| response_size_value(r))(websites[i].1)));
    }
    law_lines_in_full("errors"@, websites, errors);
    law_lines_in_full("timeouts"@, websites, timeouts);
    law_lines_in_full("status_code"@, websites, codes);
    law_lines_in_full("response_time_ms"@, websites, times);
    law_lines_in_full("response_size"@, websites, sizes);
    assert(Seq::new(
        n,
        |i: int|
            match errors[i] {
                Some(value) => "availcheck_"@ + "errors"@ + "{website=\""@ + websites[i].0.name@
                    + "\"} "@ + text::decimal(value as nat) + "\n"@,
                None => Seq::<char>::empty(),
            },
    ) =~= websites.map_values(
        |w: (Website, MetricResult)|
            "availcheck_errors{website=\""@ + w.0.name@ + "\"} "@ + (if w.1 is Error {
                "1"@
            } else {
                "0"@
            }) + "\n"@,
    ));
    assert(Seq::new(
        n,
        |i: int|
            match timeouts[i] {
                Some(value) => "availcheck_"@ + "timeouts"@ + "{website=\""@ + websites[i].0.name@
                    + "\"} "@ + text::decimal(value as nat) + "\n"@,
                None => Seq::<char>::empty(),
            },
    ) =~= websites.map_values(
        |w: (Website, MetricResult)|
            "availcheck_timeouts{website=\""@ + w.0.name@ + "\"} "@ + (if w.1 is Timeout {
                "1"@
            } else {
                "0"@
            }) + "\n"@,
    ));
    assert(Seq::new(
        n,
        |i: int|
            match codes[i] {
                Some(value) => "availcheck_"@ + "status_code"@ + "{website=\""@ + websites[i].0.name@
                    + "\"} "@ + text::decimal(value as nat) + "\n"@,
                None => Seq::<char>::empty(),
            },
    ) =~= websites.map_values(
        |w: (Website, MetricResult)|
            if w.1 is Success && w.1->Success_0.status_code is Some {
                "availcheck_status_code{website=\""@ + w.0.name@ + "\"} "@ + text::decimal(
                    w.1->Success_0.status_code->0 as nat,
                ) + "\n"@
            } else {
                Seq::empty()
            },
    ));
    assert(Seq::new(
        n,
        |i: int|
            match times[i] {
                Some(value) => "availcheck_"@ + "response_time_ms"@ + "{website=\""@
                    + websites[i].0.name@ + "\"} "@ + text::decimal(value as nat) + "\n"@,
                None => Seq::<char>::empty(),
            },
    ) =~= websites.map_values(
        |w: (Website, MetricResult)|
            if w.1 is Success && w.1->Success_0.response_time is Some {
                "availcheck_response_time_ms{website=\""@ + w.0.name@ + "\"} "@ + text::decimal(
                    (w.1->Success_0.response_time->0.nanos / 1_000_000) as nat,
                ) + "\n"@
            } else {
                Seq::empty()
            },
    ));
    assert(Seq::new(
        n,
        |i: int|
            match sizes[i] {
                Some(value) => "availcheck_"@ + "response_size"@ + "{website=\""@
                    + websites[i].0.name@ + "\"} "@ + text::decimal(value as nat) + "\n"@,
                None => Seq::<char>::empty(),
            },
    ) =~= websites.map_values(
        |w: (Website, MetricResult)|
            if w.1 is Success && w.1->Success_0.response_size is Some {
                "availcheck_response_size{website=\""@ + w.0.name@ + "\"} "@ + text::decimal(
                    w.1->Success_0.response_size->0 as nat,
                ) + "\n"@
            } else {
                Seq::empty()
            },
    ));
}

/// For every website that answered, the report shows each measurement as it was taken, and that the
/// probe neither failed nor took too long.
pub proof fn law_measurements_are_shown(
    websites: Seq<(Website, MetricResult)>,
    i: int,
    data: MetricData,
)
    requires
        0 <= i < websites.len(),
        websites[i].1 == MetricResult::Success(data),
    ensures
        ({
            let site = websites[i].0.name@ + "\"} "@;
            let all = report(websites);
            &&& shows(all, "availcheck_errors{website=\""@ + site + "0"@ + "\n"@)
            &&& shows(all, "availcheck_timeouts{website=\""@ + site + "0"@ + "\n"@)
            &&& data.status_code matches Some(code) ==> shows(
                all,
                "availcheck_status_code{website=\""@ + site + text::decimal(code as nat) + "\n"@,
            )
            &&& data.response_time matches Some(span) ==> shows(
                all,
                "availcheck_response_time_ms{website=\""@ + site + text::decimal(
                    (span.nanos / 1_000_000) as nat,
                ) + "\n"@,
            )
            &&& data.response_size matches Some(size) ==> shows(
                all,
                "availcheck_response_size{website=\""@ + site + text::decimal(size as nat) + "\n"@,
            )
        }),
{
    lemma_pieces();
    law_report_is_complete(websites, i);
    let name = websites[i].0.name@;
    let site = name + "\"} "@;
    assert(metric_line("errors"@, name, 0) =~= "availcheck_errors{website=\""@ + site + "0"@
        + "\n"@);
    assert(metric_line("timeouts"@, name, 0) =~= "availcheck_timeouts{website=\""@ + site + "0"@
        + "\n"@);
    if let Some(code) = data.status_code {
        assert(metric_line("status_code"@, name, code as nat)
            =~= "availcheck_status_code{website=\""@ + site + text::decimal(code as nat) + "\n"@);
    }
    if let Some(span) = data.response_time {
        let millis = (span.nanos / 1_000_000) as nat;
        assert(metric_line("response_time_ms"@, name, millis)
            =~= "availcheck_response_time_ms{website=\""@ + site + text::decimal(millis) + "\n"@);
    }
    if let Some(size) = data.response_size {
        assert(metric_line("response_size"@, name, size as nat)
            =~= "availcheck_response_size{website=\""@ + site + text::decimal(size as nat) + "\n"@);
    }
}

/// For every website whose probe failed or took too long, the report shows which of the two it was.
pub proof fn law_failures_are_shown(websites: Seq<(Website, MetricResult)>, i: int)
    requires
        0 <= i < websites.len(),
        websites[i].1 !is Success,
    ensures
        ({
            let site = websites[i].0.name@ + "\"} "@;
            let all = report(websites);
            let (error, timeout) = if websites[i].1 is Error {
                ("1"@, "0"@)
            } else {
                ("0"@, "1"@)
            };
            &&& shows(all, "availcheck_errors{website=\""@ + site + error + "\n"@)
            &&& shows(all, "availcheck_timeouts{website=\""@ + site + timeout + "\n"@)
        }),
{
    lemma_pieces();
    law_report_is_complete(websites, i);
    let name = websites[i].0.name@;
    let site = name + "\"} "@;
    let error: nat = if websites[i].1 is Error {
        1
    } else {
        0
    };
    let timeout: nat = if websites[i].1 is Error {
        0
    } else {
        1
    };
    assert(metric_line("errors"@, name, error) =~= "availcheck_errors{website=\""@ + site
        + text::decimal(error) + "\n"@);
    assert(metric_line("timeouts"@, name, timeout) =~= "availcheck_timeouts{website=\""@ + site
        + text::decimal(timeout) + "\n"@);
}

} // verus!
