//! The single operator page of the manual backfill UI, and the endpoints
//! its forms post to.
use vstd::prelude::*;

verus! {

/// The page: one form per backfill, each naming its endpoint in
/// `data-endpoint`, and the job table it refreshes every three seconds.
pub const INDEX_HTML: &'static str = r##"<!doctype html>
<html lang="zh-Hant">
<head>
  <meta charset="utf-8">
  <meta name="viewport" content="width=device-width, initial-scale=1">
  <title>Manual Backfill</title>
  <style>
    :root {
      color-scheme: light;
      --bg: #f6f7f9;
      --panel: #ffffff;
      --text: #1d252d;
      --muted: #65717d;
      --line: #dce2e8;
      --accent: #146c63;
      --accent-dark: #0f504a;
      --danger: #b42318;
      --ok: #157347;
      --running: #8a5a00;
    }
    * { box-sizing: border-box; }
    body {
      margin: 0;
      background: var(--bg);
      color: var(--text);
      font-family: system-ui, -apple-system, BlinkMacSystemFont, "Segoe UI", sans-serif;
      font-size: 15px;
      line-height: 1.5;
    }
    header {
      border-bottom: 1px solid var(--line);
      background: var(--panel);
    }
    .wrap {
      width: min(1120px, calc(100% - 32px));
      margin: 0 auto;
    }
    header .wrap {
      min-height: 72px;
      display: flex;
      align-items: center;
      justify-content: space-between;
      gap: 16px;
    }
    h1 {
      margin: 0;
      font-size: 24px;
      font-weight: 700;
    }
    main {
      padding: 24px 0 40px;
    }
    .grid {
      display: grid;
      grid-template-columns: repeat(3, minmax(0, 1fr));
      gap: 16px;
      align-items: start;
    }
    .panel {
      background: var(--panel);
      border: 1px solid var(--line);
      border-radius: 8px;
      padding: 16px;
    }
    h2 {
      margin: 0 0 12px;
      font-size: 18px;
    }
    label {
      display: block;
      color: var(--muted);
      font-size: 13px;
      margin-bottom: 6px;
    }
    input {
      width: 100%;
      height: 40px;
      border: 1px solid var(--line);
      border-radius: 6px;
      padding: 0 10px;
      font: inherit;
      background: #fff;
      color: var(--text);
    }
    button {
      width: 100%;
      height: 40px;
      border: 0;
      border-radius: 6px;
      margin-top: 12px;
      background: var(--accent);
      color: #fff;
      font: inherit;
      font-weight: 650;
      cursor: pointer;
    }
    button:hover { background: var(--accent-dark); }
    button:disabled { opacity: .65; cursor: progress; }
    .jobs {
      margin-top: 18px;
      background: var(--panel);
      border: 1px solid var(--line);
      border-radius: 8px;
      overflow: hidden;
    }
    table {
      width: 100%;
      border-collapse: collapse;
      table-layout: fixed;
    }
    th, td {
      padding: 10px 12px;
      border-bottom: 1px solid var(--line);
      text-align: left;
      vertical-align: top;
      overflow-wrap: anywhere;
    }
    th {
      color: var(--muted);
      font-size: 13px;
      font-weight: 650;
      background: #fbfcfd;
    }
    tr:last-child td { border-bottom: 0; }
    .status {
      display: inline-flex;
      align-items: center;
      min-height: 24px;
      padding: 2px 8px;
      border-radius: 999px;
      font-size: 13px;
      font-weight: 650;
      background: #eef1f4;
    }
    .running { color: var(--running); }
    .succeeded { color: var(--ok); }
    .failed { color: var(--danger); }
    .toast {
      color: var(--muted);
      min-height: 22px;
      margin-top: 10px;
      overflow-wrap: anywhere;
    }
    @media (max-width: 840px) {
      .grid { grid-template-columns: 1fr; }
      header .wrap { align-items: flex-start; flex-direction: column; padding: 16px 0; }
      th:nth-child(1), td:nth-child(1) { display: none; }
    }
  </style>
</head>
<body>
  <header>
    <div class="wrap">
      <h1>Manual Backfill</h1>
      <div id="summary" class="toast">Loading jobs...</div>
    </div>
  </header>
  <main class="wrap">
    <section class="grid" aria-label="Backfill forms">
      <form class="panel" data-endpoint="/api/manual-backfill/daily-quotes">
        <h2>Daily Quotes</h2>
        <label for="daily-quotes-date">Trading date</label>
        <input id="daily-quotes-date" name="date" type="date" required>
        <button type="submit">Start</button>
        <div class="toast"></div>
      </form>
      <form class="panel" data-endpoint="/api/manual-backfill/closing-aggregate">
        <h2>Closing Aggregate</h2>
        <label for="closing-date">Trading date</label>
        <input id="closing-date" name="date" type="date" required>
        <button type="submit">Start</button>
        <div class="toast"></div>
      </form>
      <form class="panel" data-endpoint="/api/manual-backfill/taiwan-stock-index">
        <h2>Taiwan Stock Index</h2>
        <label for="index-date">Trading date</label>
        <input id="index-date" name="date" type="date" required>
        <button type="submit">Start</button>
        <div class="toast"></div>
      </form>
      <form class="panel" data-endpoint="/api/manual-backfill/received-dividend-records">
        <h2>Received Dividends</h2>
        <label for="received-code">Security code</label>
        <input id="received-code" name="security_code" inputmode="latin" placeholder="0056" required>
        <button type="submit">Start</button>
        <div class="toast"></div>
      </form>
      <form class="panel" data-endpoint="/api/manual-backfill/historical-dividends">
        <h2>Historical Dividends</h2>
        <label for="historical-code">Security code</label>
        <input id="historical-code" name="security_code" inputmode="latin" placeholder="2845" required>
        <button type="submit">Start</button>
        <div class="toast"></div>
      </form>
      <form class="panel" data-endpoint="/api/manual-backfill/multiple-dividend-historical-dividends">
        <h2>Multi Dividend History</h2>
        <label for="multiple-dividend-year">Dividend year</label>
        <input id="multiple-dividend-year" name="year" type="number" min="1900" max="3000" step="1" placeholder="2026" required>
        <button type="submit">Start</button>
        <div class="toast"></div>
      </form>
      <form class="panel" data-endpoint="/api/manual-backfill/quote-history">
        <h2>Quote History</h2>
        <label for="quote-history-symbols">Security codes (blank for every ETF)</label>
        <input id="quote-history-symbols" name="stock_symbols" inputmode="latin" placeholder="0050, 0056">
        <label for="quote-history-from">From month</label>
        <input id="quote-history-from" name="from" type="month" required>
        <label for="quote-history-to">To month</label>
        <input id="quote-history-to" name="to" type="month" required>
        <button type="submit">Start</button>
        <div class="toast"></div>
      </form>
      <form class="panel" data-endpoint="/api/manual-backfill/cagr">
        <h2>CAGR</h2>
        <label for="cagr-date">Base date (blank for the latest trading day)</label>
        <input id="cagr-date" name="date" type="date">
        <button type="submit">Start</button>
        <div class="toast"></div>
      </form>
      <form class="panel" data-endpoint="/api/manual-backfill/cagr-period">
        <h2>CAGR Period History</h2>
        <label for="cagr-period">Period</label>
        <select id="cagr-period" name="period" required>
          <option value="M3">M3</option>
          <option value="M6">M6</option>
          <option value="Y1" selected>Y1</option>
          <option value="Y1H">Y1H</option>
          <option value="Y2">Y2</option>
          <option value="Y3">Y3</option>
          <option value="Y5">Y5</option>
          <option value="Y7">Y7</option>
          <option value="Y10">Y10</option>
        </select>
        <button type="submit">Start</button>
        <div class="toast"></div>
      </form>
      <form class="panel" data-endpoint="/api/manual-backfill/corporate-action">
        <h2>Corporate Action</h2>
        <label for="corporate-action-code">Security code</label>
        <input id="corporate-action-code" name="stock_symbol" inputmode="latin" placeholder="0050" required>
        <label for="corporate-action-date">Effective date</label>
        <input id="corporate-action-date" name="effective_date" type="date" required>
        <label for="corporate-action-ratio">Share ratio (new shares per old share)</label>
        <input id="corporate-action-ratio" name="share_ratio" inputmode="decimal" placeholder="4" required>
        <label for="corporate-action-note">Note</label>
        <input id="corporate-action-note" name="note">
        <button type="submit">Save</button>
        <div class="toast"></div>
      </form>
    </section>
    <section class="jobs" aria-label="Backfill jobs">
      <table>
        <thead>
          <tr>
            <th style="width: 18%">Job</th>
            <th style="width: 18%">Type</th>
            <th style="width: 14%">Input</th>
            <th style="width: 14%">Status</th>
            <th>Message</th>
          </tr>
        </thead>
        <tbody id="jobs-body">
          <tr><td colspan="5">No jobs yet.</td></tr>
        </tbody>
      </table>
    </section>
  </main>
  <script>
    const jobsBody = document.querySelector("#jobs-body");
    const summary = document.querySelector("#summary");

    document.querySelectorAll("form[data-endpoint]").forEach((form) => {
      form.addEventListener("submit", async (event) => {
        event.preventDefault();
        const button = form.querySelector("button");
        const toast = form.querySelector(".toast");
        const data = Object.fromEntries(new FormData(form).entries());
        button.disabled = true;
        toast.textContent = "Starting...";

        try {
          const response = await fetch(form.dataset.endpoint, {
            method: "POST",
            headers: { "content-type": "application/json" },
            body: JSON.stringify(data)
          });
          const body = await response.json();
          if (!response.ok) throw new Error(body.error || "request failed");
          toast.textContent = body.job
            ? `Started job ${body.job.id}`
            : `Saved ${body.actions.length} corporate actions for ${body.stock_symbol}`;
          await refreshJobs();
        } catch (error) {
          toast.textContent = error.message;
        } finally {
          button.disabled = false;
        }
      });
    });

    async function refreshJobs() {
      try {
        const response = await fetch("/api/manual-backfill/jobs");
        const jobs = await response.json();
        renderJobs(jobs);
        const running = jobs.filter((job) => job.status === "running").length;
        summary.textContent = `${jobs.length} jobs, ${running} running`;
      } catch (error) {
        summary.textContent = error.message;
      }
    }

    function renderJobs(jobs) {
      if (!jobs.length) {
        jobsBody.innerHTML = '<tr><td colspan="5">No jobs yet.</td></tr>';
        return;
      }
      jobsBody.replaceChildren(...jobs.map((job) => {
        const row = document.createElement("tr");
        row.innerHTML = `
          <td>${escapeHtml(job.id)}</td>
          <td>${escapeHtml(job.kind)}</td>
          <td>${escapeHtml(job.input)}</td>
          <td><span class="status ${job.status}">${escapeHtml(job.status)}</span></td>
          <td>${escapeHtml(job.message)}</td>
        `;
        return row;
      }));
    }

    function escapeHtml(value) {
      return String(value).replace(/[&<>"']/g, (char) => ({
        "&": "&amp;",
        "<": "&lt;",
        ">": "&gt;",
        '"': "&quot;",
        "'": "&#039;"
      }[char]));
    }

    refreshJobs();
    setInterval(refreshJobs, 3000);
  </script>
</body>
</html>"##;

/// The endpoints that start a backfill or save a corporate action; every
/// one has a form on [`INDEX_HTML`].
pub fn form_endpoints() -> (r: Vec<&'static str>)
    ensures
        r@.len() == 10,
        r@[0]@ == "/api/manual-backfill/daily-quotes"@,
        r@[1]@ == "/api/manual-backfill/closing-aggregate"@,
        r@[2]@ == "/api/manual-backfill/taiwan-stock-index"@,
        r@[3]@ == "/api/manual-backfill/received-dividend-records"@,
        r@[4]@ == "/api/manual-backfill/historical-dividends"@,
        r@[5]@ == "/api/manual-backfill/multiple-dividend-historical-dividends"@,
        r@[6]@ == "/api/manual-backfill/quote-history"@,
        r@[7]@ == "/api/manual-backfill/cagr"@,
        r@[8]@ == "/api/manual-backfill/cagr-period"@,
        r@[9]@ == "/api/manual-backfill/corporate-action"@,
{
    vec![
        "/api/manual-backfill/daily-quotes",
        "/api/manual-backfill/closing-aggregate",
        "/api/manual-backfill/taiwan-stock-index",
        "/api/manual-backfill/received-dividend-records",
        "/api/manual-backfill/historical-dividends",
        "/api/manual-backfill/multiple-dividend-historical-dividends",
        "/api/manual-backfill/quote-history",
        "/api/manual-backfill/cagr",
        "/api/manual-backfill/cagr-period",
        "/api/manual-backfill/corporate-action",
    ]
}

} // verus!
