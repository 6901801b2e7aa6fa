//! The traffic view of the dashboard: the page with its chips, chart and
//! recent requests, and the JSON feed its auto-refresh polls.
//!
//! Rates and durations are fractional numbers; they arrive here already
//! written out, one text per value.

use vstd::prelude::*;
use crate::alert::{join, join_spec};
use crate::assets::{html_escape, html_escape_spec, layout_spec, render_layout};
use crate::assoc::keys_unique;
use crate::cache::Response;
use crate::feeds::{
    build_chart_json, by_status_json, by_status_json_spec, chart_json_spec, count_in,
    sorted_status_keys, status_keys_spec,
};
use crate::handler::{
    chip_class_for_status, chip_class_spec, html_response, html_response_spec, json_escape,
    json_escape_spec, status_description, status_description_spec, PATH_TRAFFIC,
};
use crate::principal::{strings_view, AdminPrincipal};
use vstd::utf8::*;
use crate::text::{decimal, push_decimal, to_owned_str};
use crate::traffic::{CountersSnapshot, RecordView, RequestRecord, TrafficSample};

verus! {

/// How many recent requests the view shows.
pub const RECENT_LIMIT: usize = 50;

/// Client-side glue that reads the chart data embedded in the page and
/// draws a stacked requests-per-interval chart with uPlot. It exposes
/// `window.steelTrafficRefresh()` so the auto-refresh loop can repaint the
/// chips, the chart and the recent requests without reloading the page.
pub const TRAFFIC_CHART_JS: &'static str = r#"
(function() {
    var el = document.getElementById('traffic-chart');
    var dataEl = document.getElementById('traffic-chart-data');
    if (!el || typeof uPlot === 'undefined') return;
    var chart = null;
    var chartSeriesLabels = [];
    var palette = ['#f33c57', '#1976d2', '#2e7d32', '#ed6c02',
                   '#6a1b9a', '#00838f', '#455a64'];
    function classForStatus(s) {
        if (s >= 200 && s < 300) return 'chip-ok';
        if (s >= 300 && s < 400) return 'chip-redirect';
        if (s >= 400 && s < 500) return 'chip-client';
        if (s >= 500 && s < 600) return 'chip-server';
        return '';
    }
    function descForStatus(s) {
        if (s >= 200 && s < 300) return 'success';
        if (s >= 300 && s < 400) return 'redirect';
        if (s >= 400 && s < 500) return 'client error';
        if (s >= 500 && s < 600) return 'server error';
        return 'informational';
    }
    function buildChart(payload) {
        var series = [{}];
        chartSeriesLabels = [];
        for (var i = 0; i < payload.series.length; i++) {
            series.push({
                label:  payload.series[i].label,
                stroke: palette[i % palette.length],
                width:  2,
                fill:   palette[i % palette.length] + '22',
                paths:  uPlot.paths.stepped({align: 1}),
            });
            chartSeriesLabels.push(payload.series[i].label);
        }
        var data = [payload.t];
        for (var j = 0; j < payload.series.length; j++) {
            data.push(payload.series[j].values);
        }
        var opts = {
            width:  el.clientWidth || 800,
            height: 260,
            scales: {x: {time: true}},
            axes: [
                {stroke: '#666', grid: {stroke: '#eee'}},
                {stroke: '#666', grid: {stroke: '#eee'}},
            ],
            series: series,
            legend: {live: false},
        };
        chart = new uPlot(opts, data, el);
    }
    function chartSchemaMatches(payload) {
        if (payload.series.length !== chartSeriesLabels.length) return false;
        for (var i = 0; i < payload.series.length; i++) {
            if (payload.series[i].label !== chartSeriesLabels[i]) return false;
        }
        return true;
    }
    function updateChart(payload) {
        if (!payload.t || payload.t.length < 2) {
            if (!chart) {
                el.innerHTML = '<p class="notice empty">Not enough samples yet. '
                    + 'The chart appears after two sample intervals '
                    + '(~10 seconds at the default cadence).</p>';
            }
            return;
        }
        if (!chart || !chartSchemaMatches(payload)) {
            if (chart) { chart.destroy(); chart = null; }
            el.innerHTML = '';
            buildChart(payload);
            return;
        }
        var data = [payload.t];
        for (var j = 0; j < payload.series.length; j++) {
            data.push(payload.series[j].values);
        }
        chart.setData(data);
    }
    function updateChips(counters) {
        var row = document.getElementById('traffic-chip-row');
        if (!row) return;
        var parts = [];
        parts.push(
            '<div class="chip chip-total">'
            + '<div class="chip-label">Total</div>'
            + '<div class="chip-value">' + counters.total + '</div>'
            + '<div class="chip-sub">requests since startup</div>'
            + '</div>'
        );
        parts.push(
            '<div class="chip">'
            + '<div class="chip-label">Rate</div>'
            + '<div class="chip-value">' + counters.rate.toFixed(2) + '</div>'
            + '<div class="chip-sub">requests / sec (last interval)</div>'
            + '</div>'
        );
        counters.by_status.forEach(function(entry) {
            parts.push(
                '<div class="chip ' + classForStatus(entry.code) + '">'
                + '<div class="chip-label">HTTP ' + entry.code + '</div>'
                + '<div class="chip-value">' + entry.count + '</div>'
                + '<div class="chip-sub">' + descForStatus(entry.code) + '</div>'
                + '</div>'
            );
        });
        row.innerHTML = parts.join('');
    }
    function updateRecent(recent) {
        var body = document.getElementById('traffic-recent-body');
        if (!body) return;
        if (!recent.length) return;
        var html = '';
        for (var i = 0; i < recent.length; i++) {
            var r = recent[i];
            html += '<tr>'
                + '<td><code>' + r.method + '</code></td>'
                + '<td>' + r.vhost + '</td>'
                + '<td class="path"><code>' + r.path + '</code></td>'
                + '<td class="status ' + classForStatus(r.status) + '">' + r.status + '</td>'
                + '<td class="num">' + r.duration + '</td>'
                + '</tr>';
        }
        body.innerHTML = html;
    }
    function refreshFrom(payload) {
        if (!payload) return;
        updateChips(payload.counters);
        updateChart(payload.chart);
        updateRecent(payload.recent);
    }
    function refresh() {
        fetch('/admin/traffic.json', { credentials: 'same-origin' })
            .then(function(r) { return r.ok ? r.json() : null; })
            .then(refreshFrom)
            .catch(function() {});
    }
    // First paint: prefer the inline blob for a zero-RTT render,
    // fall back to the JSON feed if the blob is missing or empty.
    if (dataEl) {
        try {
            var payload = JSON.parse(dataEl.textContent);
            updateChart(payload);
        } catch (e) {
            refresh();
        }
    } else {
        refresh();
    }
    window.steelTrafficRefresh = refresh;
    window.addEventListener('resize', function() {
        if (chart) {
            chart.setSize({ width: el.clientWidth, height: 260 });
        }
    });
})();
"#;

// ---------------------------------------------------------------------------
// The page
// ---------------------------------------------------------------------------

/// The chip of one status code and its count.
pub open spec fn status_chip_spec(s: u16, count: u64) -> Seq<char> {
    "<div class=\"chip "@ + chip_class_spec(s) + "\"><div class=\"chip-label\">HTTP "@ + decimal(
        s as nat,
    ) + "</div><div class=\"chip-value\">"@ + decimal(count as nat)
        + "</div><div class=\"chip-sub\">"@ + status_description_spec(s) + "</div></div>\n"@
}

/// The chips of the status codes `keys`, in that order.
pub open spec fn status_chips_spec(keys: Seq<u16>, by_status: Seq<(u16, u64)>) -> Seq<char>
    decreases keys.len(),
{
    if keys.len() == 0 {
        seq![]
    } else {
        status_chips_spec(keys.drop_last(), by_status) + status_chip_spec(
            keys.last(),
            count_in(by_status, keys.last()),
        )
    }
}

/// The headline chips: the total, the rate, then one per status code.
pub open spec fn headline_chips_spec(
    total: u64,
    rate: Seq<char>,
    keys: Seq<u16>,
    by_status: Seq<(u16, u64)>,
) -> Seq<char> {
    "<div class=\"chip chip-total\"><div class=\"chip-label\">Total</div><div class=\"chip-value\">"@
        + decimal(total as nat)
        + "</div><div class=\"chip-sub\">requests since startup</div></div>\n<div class=\"chip\"><div class=\"chip-label\">Rate</div><div class=\"chip-value\">"@
        + rate + "</div><div class=\"chip-sub\">requests / sec (last interval)</div></div>\n"@
        + status_chips_spec(keys, by_status)
}

/// The table row of one recent request, with its duration as written.
pub open spec fn recent_row_spec(r: RecordView, dur: Seq<char>) -> Seq<char> {
    "<tr><td><code>"@ + html_escape_spec(r.method) + "</code></td><td>"@ + html_escape_spec(r.vhost)
        + "</td><td class=\"path\"><code>"@ + html_escape_spec(r.path)
        + "</code></td><td class=\"status "@ + chip_class_spec(r.status) + "\">"@ + decimal(
        r.status as nat,
    ) + "</td><td class=\"num\">"@ + dur + "</td></tr>\n"@
}

/// The rows of the recent requests, in the order given.
pub open spec fn recent_rows_spec(rs: Seq<RecordView>, ds: Seq<Seq<char>>) -> Seq<char>
    decreases rs.len(),
{
    if rs.len() == 0 {
        seq![]
    } else {
        recent_rows_spec(rs.drop_last(), ds) + recent_row_spec(rs.last(), ds[rs.len() - 1])
    }
}

/// The recent requests, or a notice that there are none yet.
pub open spec fn recent_html_spec(rs: Seq<RecordView>, ds: Seq<Seq<char>>) -> Seq<char> {
    if rs.len() == 0 {
        "<p class=\"notice empty\">No requests recorded yet. Interact with the dashboard or visit any vhost and this table will populate.</p>"@
    } else {
        "<h2>Recent requests</h2>\n<table class=\"steel-table\">\n<thead><tr><th>Method</th><th>Vhost</th><th>Path</th><th class=\"status\">Status</th><th class=\"num\">Duration</th></tr></thead>\n<tbody id=\"traffic-recent-body\">"@
            + recent_rows_spec(rs, ds) + "</tbody>\n</table>\n"@
    }
}

/// The body of the traffic page.
pub open spec fn traffic_body_spec(
    chips: Seq<char>,
    chart_json: Seq<char>,
    refresh_js: Seq<char>,
    recent: Seq<char>,
) -> Seq<char> {
    "<h1>Traffic</h1>\n<div class=\"chip-row\" id=\"traffic-chip-row\">\n"@ + chips
        + "</div>\n<h2>Requests per sample interval</h2>\n<div id=\"traffic-chart\" class=\"chart-panel\"></div>\n<script id=\"traffic-chart-data\" type=\"application/json\">\n"@
        + chart_json + "\n</script>\n<script>\n"@ + TRAFFIC_CHART_JS@ + "\n</script>\n<script>\n"@
        + refresh_js + "\n</script>\n"@ + recent
}

/// The recent records as the specs see them.
pub open spec fn recent_view(recent: Seq<RequestRecord>) -> Seq<RecordView> {
    Seq::new(recent.len(), |i: int| recent[i]@)
}

fn push_status_chip(s: &mut String, k: u16, count: u64)
    ensures
        final(s)@ == old(s)@ + status_chip_spec(k, count),
{
    s.append("<div class=\"chip ");
    s.append(chip_class_for_status(k));
    s.append("\"><div class=\"chip-label\">HTTP ");
    push_decimal(s, k as u64);
    s.append("</div><div class=\"chip-value\">");
    push_decimal(s, count);
    s.append("</div><div class=\"chip-sub\">");
    s.append(status_description(k));
    s.append("</div></div>\n");
}

fn push_status_chips(s: &mut String, keys: &Vec<u16>, by_status: &Vec<(u16, u64)>)
    requires
        keys_unique(by_status@),
    ensures
        final(s)@ == old(s)@ + status_chips_spec(keys@, by_status@),
{
    let ghost start = s@;
    let mut i: usize = 0;
    while i < keys.len()
        invariant
            i <= keys@.len(),
            keys_unique(by_status@),
            s@ == start + status_chips_spec(keys@.take(i as int), by_status@),
        decreases keys@.len() - i,
    {
        let k = keys[i];
        let count = crate::feeds::count_of(by_status, k);
        push_status_chip(s, k, count);
        assert(keys@.take(i + 1).drop_last() =~= keys@.take(i as int));
        i += 1;
    }
    assert(keys@.take(keys@.len() as int) =~= keys@);
}

fn push_recent_row(s: &mut String, r: &RequestRecord, dur: &str)
    ensures
        final(s)@ == old(s)@ + recent_row_spec(r@, dur@),
{
    let m = html_escape(r.method.as_str());
    let v = html_escape(r.vhost.as_str());
    let p = html_escape(r.path.as_str());
    s.append("<tr><td><code>");
    s.append(m.as_str());
    s.append("</code></td><td>");
    s.append(v.as_str());
    s.append("</td><td class=\"path\"><code>");
    s.append(p.as_str());
    s.append("</code></td><td class=\"status ");
    s.append(chip_class_for_status(r.status));
    s.append("\">");
    push_decimal(s, r.status as u64);
    s.append("</td><td class=\"num\">");
    s.append(dur);
    s.append("</td></tr>\n");
}

fn push_recent_rows(s: &mut String, recent: &Vec<RequestRecord>, durations: &Vec<String>)
    requires
        durations@.len() == recent@.len(),
    ensures
        final(s)@ == old(s)@ + recent_rows_spec(recent_view(recent@), strings_view(durations@)),
{
    let ghost start = s@;
    let ghost rv = recent_view(recent@);
    let ghost dv = strings_view(durations@);
    let mut i: usize = 0;
    while i < recent.len()
        invariant
            i <= recent@.len(),
            durations@.len() == recent@.len(),
            rv == recent_view(recent@),
            dv == strings_view(durations@),
            s@ == start + recent_rows_spec(rv.take(i as int), dv),
        decreases recent@.len() - i,
    {
        push_recent_row(s, &recent[i], durations[i].as_str());
        assert(rv.take(i + 1).drop_last() =~= rv.take(i as int));
        assert(rv.take(i + 1).last() == recent@[i as int]@);
        i += 1;
    }
    assert(rv.take(recent@.len() as int) =~= rv);
}

/// The body of the traffic page: the total, `rate` (requests per second
/// over the last interval, as written), a chip per status code in
/// ascending order, the chart of `history`, the refresh script and the
/// recent requests with their durations as written.
pub fn traffic_body(
    counters: &CountersSnapshot,
    rate: &str,
    history: &Vec<TrafficSample>,
    recent: &Vec<RequestRecord>,
    durations: &Vec<String>,
    refresh_js: &str,
) -> (r: String)
    requires
        counters.wf(),
        forall|m: int| 0 <= m < history@.len() ==> keys_unique((#[trigger] history@[m]).by_status@),
        durations@.len() == recent@.len(),
    ensures
        r@ == traffic_body_spec(
            headline_chips_spec(
                counters.total,
                rate@,
                status_keys_spec(counters.by_status@),
                counters.by_status@,
            ),
            chart_json_spec(history@, status_keys_spec(counters.by_status@)),
            refresh_js@,
            recent_html_spec(recent_view(recent@), strings_view(durations@)),
        ),
{
    let keys = sorted_status_keys(&counters.by_status);
    let chart = build_chart_json(history, &keys);
    let mut s = to_owned_str("<h1>Traffic</h1>\n<div class=\"chip-row\" id=\"traffic-chip-row\">\n");
    let ghost before_chips = s@;
    s.append(
        "<div class=\"chip chip-total\"><div class=\"chip-label\">Total</div><div class=\"chip-value\">",
    );
    push_decimal(&mut s, counters.total);
    s.append(
        "</div><div class=\"chip-sub\">requests since startup</div></div>\n<div class=\"chip\"><div class=\"chip-label\">Rate</div><div class=\"chip-value\">",
    );
    s.append(rate);
    s.append("</div><div class=\"chip-sub\">requests / sec (last interval)</div></div>\n");
    push_status_chips(&mut s, &keys, &counters.by_status);
    assert(s@ =~= before_chips + headline_chips_spec(
        counters.total,
        rate@,
        keys@,
        counters.by_status@,
    ));
    s.append(
        "</div>\n<h2>Requests per sample interval</h2>\n<div id=\"traffic-chart\" class=\"chart-panel\"></div>\n<script id=\"traffic-chart-data\" type=\"application/json\">\n",
    );
    s.append(chart.as_str());
    s.append("\n</script>\n<script>\n");
    s.append(TRAFFIC_CHART_JS);
    s.append("\n</script>\n<script>\n");
    s.append(refresh_js);
    s.append("\n</script>\n");
    let ghost before_recent = s@;
    if recent.len() == 0 {
        s.append(
            "<p class=\"notice empty\">No requests recorded yet. Interact with the dashboard or visit any vhost and this table will populate.</p>",
        );
    } else {
        s.append(
            "<h2>Recent requests</h2>\n<table class=\"steel-table\">\n<thead><tr><th>Method</th><th>Vhost</th><th>Path</th><th class=\"status\">Status</th><th class=\"num\">Duration</th></tr></thead>\n<tbody id=\"traffic-recent-body\">",
        );
        push_recent_rows(&mut s, recent, durations);
        s.append("</tbody>\n</table>\n");
    }
    assert(s@ =~= before_recent + recent_html_spec(recent_view(recent@), strings_view(durations@)));
    s
}

/// The traffic page for `principal`.
pub fn render_traffic(
    principal: &AdminPrincipal,
    counters: &CountersSnapshot,
    rate: &str,
    history: &Vec<TrafficSample>,
    recent: &Vec<RequestRecord>,
    durations: &Vec<String>,
    refresh_js: &str,
    css: &str,
) -> (r: Response)
    requires
        counters.wf(),
        forall|m: int| 0 <= m < history@.len() ==> keys_unique((#[trigger] history@[m]).by_status@),
        durations@.len() == recent@.len(),
    ensures
        r@ == html_response_spec(
            layout_spec(
                "Traffic"@,
                PATH_TRAFFIC@,
                principal@.name,
                traffic_body_spec(
                    headline_chips_spec(
                        counters.total,
                        rate@,
                        status_keys_spec(counters.by_status@),
                        counters.by_status@,
                    ),
                    chart_json_spec(history@, status_keys_spec(counters.by_status@)),
                    refresh_js@,
                    recent_html_spec(recent_view(recent@), strings_view(durations@)),
                ),
                css@,
            ),
        ),
{
    let body = traffic_body(counters, rate, history, recent, durations, refresh_js);
    let html = render_layout("Traffic", PATH_TRAFFIC, principal, body.as_str(), css);
    html_response(html)
}

// ---------------------------------------------------------------------------
// The JSON feed
// ---------------------------------------------------------------------------

/// A `200 OK` carrying a JSON document that no cache may keep.
pub open spec fn json_response_spec(body: Seq<char>) -> crate::cache::ResponseView {
    crate::cache::ResponseView {
        status: crate::handler::STATUS_OK,
        fields: seq![
            ("Content-Type"@, "application/json; charset=utf-8"@),
            ("Cache-Control"@, "no-store"@),
        ],
        body: encode_utf8(body),
    }
}

/// Build a `200 OK` JSON response that no cache may keep.
pub fn json_response(body: String) -> (r: Response)
    ensures
        r@ == json_response_spec(body@),
{
    let bytes = vstd::slice::slice_to_vec(body.as_str().as_bytes());
    let r = Response::new(crate::handler::STATUS_OK).with_field(
        to_owned_str("Content-Type"),
        to_owned_str("application/json; charset=utf-8"),
    ).with_field(to_owned_str("Cache-Control"), to_owned_str("no-store")).with_body(bytes);
    assert(r@.fields =~= json_response_spec(body@).fields);
    r
}

/// The JSON object of one recent request.
pub open spec fn recent_item_spec(r: RecordView, dur: Seq<char>) -> Seq<char> {
    "{\"method\":\""@ + json_escape_spec(r.method) + "\",\"vhost\":\""@ + json_escape_spec(r.vhost)
        + "\",\"path\":\""@ + json_escape_spec(r.path) + "\",\"status\":"@ + decimal(r.status as nat)
        + ",\"duration\":\""@ + json_escape_spec(dur) + "\"}"@
}

/// The JSON list of the recent requests, in the order given.
pub open spec fn recent_json_spec(rs: Seq<RecordView>, ds: Seq<Seq<char>>) -> Seq<char> {
    "["@ + join_spec(Seq::new(rs.len(), |i: int| recent_item_spec(rs[i], ds[i])), ","@) + "]"@
}

/// The traffic feed: the counters, the chart and the recent requests.
pub open spec fn traffic_json_spec(
    total: u64,
    rate: Seq<char>,
    keys: Seq<u16>,
    by_status: Seq<(u16, u64)>,
    history: Seq<TrafficSample>,
    rs: Seq<RecordView>,
    ds: Seq<Seq<char>>,
) -> Seq<char> {
    "{\"counters\":{\"total\":"@ + decimal(total as nat) + ",\"rate\":"@ + rate + ",\"by_status\":"@
        + by_status_json_spec(keys, by_status) + "},\"chart\":"@ + chart_json_spec(history, keys)
        + ",\"recent\":"@ + recent_json_spec(rs, ds) + "}"@
}

fn recent_item(r: &RequestRecord, dur: &str) -> (s: String)
    ensures
        s@ == recent_item_spec(r@, dur@),
{
    let mut s = to_owned_str("{\"method\":\"");
    let m = json_escape(r.method.as_str());
    s.append(m.as_str());
    s.append("\",\"vhost\":\"");
    let v = json_escape(r.vhost.as_str());
    s.append(v.as_str());
    s.append("\",\"path\":\"");
    let p = json_escape(r.path.as_str());
    s.append(p.as_str());
    s.append("\",\"status\":");
    push_decimal(&mut s, r.status as u64);
    s.append(",\"duration\":\"");
    let d = json_escape(dur);
    s.append(d.as_str());
    s.append("\"}");
    s
}

/// The JSON list of the recent requests with their durations as written.
pub fn recent_json(recent: &Vec<RequestRecord>, durations: &Vec<String>) -> (r: String)
    requires
        durations@.len() == recent@.len(),
    ensures
        r@ == recent_json_spec(recent_view(recent@), strings_view(durations@)),
{
    let ghost want = Seq::new(
        recent@.len(),
        |i: int| recent_item_spec(recent@[i]@, durations@[i]@),
    );
    let mut items: Vec<String> = Vec::new();
    let mut i: usize = 0;
    while i < recent.len()
        invariant
            i <= recent@.len(),
            durations@.len() == recent@.len(),
            want.len() == recent@.len(),
            forall|m: int|
                0 <= m < recent@.len() ==> #[trigger] want[m] == recent_item_spec(
                    recent@[m]@,
                    durations@[m]@,
                ),
            strings_view(items@) == want.take(i as int),
        decreases recent@.len() - i,
    {
        let item = recent_item(&recent[i], durations[i].as_str());
        let ghost before = items@;
        items.push(item);
        assert(strings_view(items@) =~= strings_view(before).push(want[i as int]));
        assert(want.take(i + 1) == want.take(i as int).push(want[i as int]));
        i += 1;
    }
    assert(want.take(recent@.len() as int) == want);
    let joined = join(&items, ",");
    let mut out = to_owned_str("[");
    out.append(joined.as_str());
    out.append("]");
    assert(want =~= Seq::new(
        recent_view(recent@).len(),
        |i: int| recent_item_spec(recent_view(recent@)[i], strings_view(durations@)[i]),
    ));
    out
}

/// The JSON feed the traffic page's auto-refresh polls: the total, `rate`
/// as written, each status code in ascending order with its count, the
/// chart of `history`, and the recent requests.
pub fn render_traffic_json(
    counters: &CountersSnapshot,
    rate: &str,
    history: &Vec<TrafficSample>,
    recent: &Vec<RequestRecord>,
    durations: &Vec<String>,
) -> (r: Response)
    requires
        counters.wf(),
        forall|m: int| 0 <= m < history@.len() ==> keys_unique((#[trigger] history@[m]).by_status@),
        durations@.len() == recent@.len(),
    ensures
        r@ == json_response_spec(
            traffic_json_spec(
                counters.total,
                rate@,
                status_keys_spec(counters.by_status@),
                counters.by_status@,
                history@,
                recent_view(recent@),
                strings_view(durations@),
            ),
        ),
{
    let keys = sorted_status_keys(&counters.by_status);
    let chart = build_chart_json(history, &keys);
    let by_status = by_status_json(&keys, &counters.by_status);
    let rj = recent_json(recent, durations);
    let mut s = to_owned_str("{\"counters\":{\"total\":");
    push_decimal(&mut s, counters.total);
    s.append(",\"rate\":");
    s.append(rate);
    s.append(",\"by_status\":");
    s.append(by_status.as_str());
    s.append("},\"chart\":");
    s.append(chart.as_str());
    s.append(",\"recent\":");
    s.append(rj.as_str());
    s.append("}");
    json_response(s)
}

} // verus!
