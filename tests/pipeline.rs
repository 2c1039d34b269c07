use nsm_archiver::crawler::{fetch_series, parse_games, series_href, CrawlError};
use nsm_archiver::dom::parse_page;
use nsm_archiver::downloader::{download_url, game_folder, work_items};
use nsm_archiver::model::{Game, QueuedDownload, Series, Sheet, SheetFormat};
use nsm_archiver::text::{decode_entities, parse_sheet_id, sanitize_name};
use nsm_archiver::worker::{download_plan, Worker, WorkerAction, WorkerEvent};

const ROOT_PAGE: &str = r##"<html><body>
<nav><a href="/browse/series/1#top">Skip</a><a href="/about">About</a></nav>
<ul>
<li><a href="/browse/series/1">Mario &amp; Luigi</a></li>
<li><a href="/browse/series/2">Zelda</a></li>
<li><a href="/browse/games">Games</a></li>
<li><a href="/browse/series/3">Metroid</a></li>
<li><a name="x">No link</a></li>
</ul>
</body></html>"##;

fn sheet_row(id: &str, title: &str, arrangers: &[&str]) -> String {
    let links: Vec<String> = arrangers
        .iter()
        .map(|a| format!("<a href=\"/arranger\">{}</a>", a))
        .collect();
    format!(
        "<li class=\"tableList-row tableList-row--sheet\" id=\"{}\"><div class=\"tableList-cell tableList-cell--sheetTitle\">{}</div><div class=\"tableList-cell tableList-cell--sheetArranger\">{}</div></li>",
        id,
        title,
        links.join(", ")
    )
}

fn game_section(name: &str, system: &str, rows: &[String]) -> String {
    format!(
        "<section class=\"game\"><h3>{}</h3><a href=\"/console\" title=\"{}\">icon</a><ul>{}</ul></section>",
        name,
        system,
        rows.join("")
    )
}

fn series_page() -> String {
    let g1 = game_section(
        "Game X",
        "NES",
        &[
            sheet_row("sheet10", "Zelda &amp; Friends", &["Alice", "Bob"]),
            sheet_row("sheet11", "Overworld", &[]),
        ],
    );
    let g2 = game_section("Other", "SNES", &[sheet_row("sheet42", "Theme", &["Carol"])]);
    let g3 = game_section("Empty", "N64", &[]);
    format!("<html><body>{}{}{}</body></html>", g1, g2, g3)
}

#[test]
fn root_page_gives_only_qualifying_series() {
    let series = fetch_series(ROOT_PAGE).unwrap();
    assert_eq!(series.len(), 3);
    assert_eq!(series[0].name, "Mario & Luigi");
    assert_eq!(series[0].url, "https://www.ninsheetmusic.org/browse/series/1");
    assert_eq!(series[1].name, "Zelda");
    assert_eq!(series[2].url, "https://www.ninsheetmusic.org/browse/series/3");
    assert!(series.iter().all(|s| s.games.is_empty()));
}

#[test]
fn root_page_without_series_is_empty() {
    let series = fetch_series("<p><a href=\"/browse/series/#x\">x</a></p>").unwrap();
    assert!(series.is_empty());
}

#[test]
fn series_href_rules() {
    assert!(series_href("/browse/series/12"));
    assert!(!series_href("/browse/series/12#games"));
    assert!(!series_href("/browse/games/12"));
    assert!(!series_href("/browse/ser"));
}

#[test]
fn series_page_gives_games_in_order() {
    let games = parse_games(&series_page()).unwrap();
    assert_eq!(games.len(), 3);
    let counts: Vec<usize> = games.iter().map(|g| g.sheets.len()).collect();
    assert_eq!(counts, vec![2, 1, 0]);
    assert_eq!(games[0].name, "Game X");
    assert_eq!(games[0].system, "NES");
    assert_eq!(games[1].system, "SNES");
    assert_eq!(games[0].sheets[0].id, 10);
    assert_eq!(games[0].sheets[1].id, 11);
    assert_eq!(games[0].sheets[0].arrangers, vec!["Alice".to_string(), "Bob".to_string()]);
    assert!(games[0].sheets[1].arrangers.is_empty());
    assert_eq!(games[1].sheets[0].id, 42);
}

#[test]
fn sheet_title_is_decoded() {
    let games = parse_games(&series_page()).unwrap();
    assert_eq!(games[0].sheets[0].name, "Zelda & Friends");
    assert_eq!(decode_entities("Zelda &amp; Friends"), "Zelda & Friends");
    let item = QueuedDownload { folder: "./downloads/A/Game X/".to_string(), sheet: games[0].sheets[0].clone() };
    let plan = download_plan(&item);
    let expected = format!("./downloads/A/Game X/{}.pdf", sanitize_name("Zelda & Friends"));
    assert_eq!(plan[0].path, expected);
    assert!(!plan[0].path.contains("&amp;"));
}

#[test]
fn populate_games_fills_series() {
    let mut s = Series { name: "A".to_string(), url: "u".to_string(), games: Vec::new() };
    s.populate_games(&series_page()).unwrap();
    assert_eq!(s.games.len(), 3);
    assert_eq!(s.name, "A");
}

#[test]
fn missing_heading_is_layout_error() {
    let page = "<section class=\"game\"><a title=\"NES\">x</a></section>";
    assert_eq!(parse_games(page).unwrap_err(), CrawlError::Layout);
    let mut s = Series { name: "A".to_string(), url: "u".to_string(), games: Vec::new() };
    assert_eq!(s.populate_games(page), Err(CrawlError::Layout));
    assert!(s.games.is_empty());
}

#[test]
fn missing_system_is_layout_error() {
    let page = "<section class=\"game\"><h3>G</h3></section>";
    assert_eq!(parse_games(page).unwrap_err(), CrawlError::Layout);
}

#[test]
fn bad_sheet_id_is_layout_error() {
    let page = game_section("G", "NES", &[sheet_row("sheetabc", "T", &[])]);
    assert_eq!(parse_games(&page).unwrap_err(), CrawlError::Layout);
    let page = game_section("G", "NES", &[sheet_row("s1", "T", &[])]);
    assert_eq!(parse_games(&page).unwrap_err(), CrawlError::Layout);
}

#[test]
fn missing_title_cell_is_layout_error() {
    let page = "<section class=\"game\"><h3>G</h3><a title=\"NES\">x</a><li class=\"tableList-row--sheet\" id=\"sheet1\"><div class=\"tableList-cell--sheetArranger\"></div></li></section>";
    assert_eq!(parse_games(page).unwrap_err(), CrawlError::Layout);
}

#[test]
fn sheet_parse_reads_one_row() {
    let html = sheet_row("sheet7", "Song", &["Dan"]);
    let page = parse_page(&html).unwrap();
    let sheet = Sheet::parse(&page, 0).unwrap();
    assert_eq!(sheet.id, 7);
    assert_eq!(sheet.name, "Song");
    assert_eq!(sheet.arrangers, vec!["Dan".to_string()]);
}

#[test]
fn game_parse_reads_one_container() {
    let html = game_section("G &amp; H", "Game Boy", &[sheet_row("sheet3", "T", &[])]);
    let page = parse_page(&html).unwrap();
    let game: Game = Game::parse(&page, 0).unwrap();
    assert_eq!(game.name, "G & H");
    assert_eq!(game.system, "Game Boy");
    assert_eq!(game.sheets.len(), 1);
}

#[test]
fn sheet_ids() {
    assert_eq!(parse_sheet_id("sheet1234"), Some(1234));
    assert_eq!(parse_sheet_id("sheet0"), Some(0));
    assert_eq!(parse_sheet_id("sheet4294967295"), Some(4294967295));
    assert_eq!(parse_sheet_id("sheet4294967296"), None);
    assert_eq!(parse_sheet_id("sheet"), None);
    assert_eq!(parse_sheet_id("sheet-1"), None);
    assert_eq!(parse_sheet_id("sheet12a"), None);
    assert_eq!(parse_sheet_id(""), None);
}

#[test]
fn download_urls() {
    assert_eq!(download_url(1234, SheetFormat::PDF), "https://www.ninsheetmusic.org/download/pdf/1234");
    assert_eq!(download_url(1234, SheetFormat::MID), "https://www.ninsheetmusic.org/download/mid/1234");
    assert_eq!(download_url(1234, SheetFormat::MUS), "https://www.ninsheetmusic.org/download/mus/1234");
    let sheet = Sheet { name: "n".to_string(), arrangers: Vec::new(), id: 0 };
    assert_eq!(sheet.get_download_url(SheetFormat::PDF), "https://www.ninsheetmusic.org/download/pdf/0");
}

#[test]
fn format_names_and_order() {
    let all = SheetFormat::all();
    let names: Vec<&str> = all.iter().map(|f| f.name()).collect();
    assert_eq!(names, vec!["pdf", "mid", "mus"]);
}

#[test]
fn folders_are_sanitized() {
    assert_eq!(game_folder("A", "Game X"), "./downloads/A/Game X/");
    let folder = game_folder("A/B", "C");
    assert_eq!(folder, format!("./downloads/{}/C/", sanitize_name("A/B")));
    assert!(!sanitize_name("A/B").contains('/'));
}

fn sheet(id: u32, name: &str) -> Sheet {
    Sheet { name: name.to_string(), arrangers: Vec::new(), id }
}

#[test]
fn end_to_end_one_series_two_sheets() {
    let mut series = fetch_series("<a href=\"/browse/series/1\">A</a>").unwrap();
    assert_eq!(series.len(), 1);
    let page = game_section(
        "Game X",
        "NES",
        &[sheet_row("sheet10", "One", &[]), sheet_row("sheet11", "Two", &[])],
    );
    series[0].populate_games(&page).unwrap();
    let items = work_items(&series);
    assert_eq!(items.len(), 2);
    let mut paths = Vec::new();
    for item in &items {
        assert_eq!(item.folder, "./downloads/A/Game X/");
        for d in download_plan(item) {
            assert!(d.path.starts_with("./downloads/A/Game X/"));
            paths.push(d.path);
        }
    }
    assert_eq!(paths.len(), 6);
    let mut unique = paths.clone();
    unique.sort();
    unique.dedup();
    assert_eq!(unique.len(), 6);
    assert_eq!(items[0].sheet.id, 10);
    assert_eq!(items[1].sheet.id, 11);
}

#[test]
fn work_items_follow_catalog_order() {
    let g1 = Game { name: "G1".to_string(), system: "S".to_string(), sheets: vec![sheet(1, "a"), sheet(2, "b")] };
    let g2 = Game { name: "G2".to_string(), system: "S".to_string(), sheets: vec![sheet(3, "c")] };
    let s1 = Series { name: "S1".to_string(), url: "u".to_string(), games: vec![g1, g2] };
    let s2 = Series { name: "S2".to_string(), url: "u".to_string(), games: Vec::new() };
    let items = work_items(&vec![s1, s2]);
    let ids: Vec<u32> = items.iter().map(|q| q.sheet.id).collect();
    assert_eq!(ids, vec![1, 2, 3]);
    assert_eq!(items[2].folder, "./downloads/S1/G2/");
    assert!(work_items(&Vec::new()).is_empty());
}

#[test]
fn rerun_plans_same_files() {
    let item = QueuedDownload { folder: "./downloads/A/G/".to_string(), sheet: sheet(5, "Song") };
    let first: Vec<String> = download_plan(&item).into_iter().map(|d| d.path).collect();
    let second: Vec<String> = download_plan(&item).into_iter().map(|d| d.path).collect();
    assert_eq!(first, second);
    assert_eq!(first, vec![
        "./downloads/A/G/Song.pdf".to_string(),
        "./downloads/A/G/Song.mid".to_string(),
        "./downloads/A/G/Song.mus".to_string(),
    ]);
}

fn expect_fetch(a: WorkerAction) -> String {
    match a {
        WorkerAction::Fetch(d) => d.url,
        _ => panic!("expected a download"),
    }
}

#[test]
fn worker_downloads_each_item_in_every_format_once() {
    let mut w = Worker::new();
    let mut urls = Vec::new();
    for id in [10u32, 11u32] {
        let item = QueuedDownload { folder: "./d/".to_string(), sheet: sheet(id, "s") };
        urls.push(expect_fetch(w.step(WorkerEvent::Received(item))));
        urls.push(expect_fetch(w.step(WorkerEvent::Attempted)));
        urls.push(expect_fetch(w.step(WorkerEvent::Attempted)));
        assert!(matches!(w.step(WorkerEvent::Attempted), WorkerAction::Receive));
    }
    assert_eq!(urls.len(), 6);
    assert_eq!(urls[0], "https://www.ninsheetmusic.org/download/pdf/10");
    assert_eq!(urls[4], "https://www.ninsheetmusic.org/download/mid/11");
    assert!(matches!(w.step(WorkerEvent::QueueClosed), WorkerAction::Stop));
    assert!(w.is_stopped());
}

#[test]
fn worker_stops_on_closed_queue_and_stays_stopped() {
    let mut w = Worker::new();
    assert!(!w.is_stopped());
    assert!(matches!(w.step(WorkerEvent::QueueClosed), WorkerAction::Stop));
    assert!(w.is_stopped());
    let item = QueuedDownload { folder: "./d/".to_string(), sheet: sheet(1, "s") };
    assert!(matches!(w.step(WorkerEvent::Received(item)), WorkerAction::Stop));
    assert!(matches!(w.step(WorkerEvent::Attempted), WorkerAction::Stop));
}

#[test]
fn worker_stops_within_bound_mid_item() {
    let mut w = Worker::new();
    let item = QueuedDownload { folder: "./d/".to_string(), sheet: sheet(1, "s") };
    expect_fetch(w.step(WorkerEvent::Received(item)));
    // an early close does not cut the item short
    assert_eq!(expect_fetch(w.step(WorkerEvent::QueueClosed)), "https://www.ninsheetmusic.org/download/pdf/1");
    w.step(WorkerEvent::Attempted);
    w.step(WorkerEvent::Attempted);
    w.step(WorkerEvent::Attempted);
    assert!(matches!(w.step(WorkerEvent::QueueClosed), WorkerAction::Stop));
}
