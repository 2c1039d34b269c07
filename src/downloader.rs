use vstd::prelude::*;

use crate::crawler::ORIGIN;
use crate::model::{
    strings_view, GameView, QueuedDownload, QueuedDownloadView, Series, SeriesView, Sheet,
    SheetFormat, SheetView,
};
use crate::text::{sanitize_name, sanitized};

verus! {

/// The root of the local tree the sheets are written into.
pub const DOWNLOAD_ROOT: &'static str = "./downloads/";

pub const DOWNLOAD_PATH: &'static str = "/download/";

/// The lowercase name of a format: its URL path segment and file extension.
pub open spec fn format_name(f: SheetFormat) -> Seq<char> {
    match f {
        SheetFormat::PDF => "pdf"@,
        SheetFormat::MID => "mid"@,
        SheetFormat::MUS => "mus"@,
    }
}

/// The formats in the order a sheet is downloaded in.
pub open spec fn formats() -> Seq<SheetFormat> {
    seq![SheetFormat::PDF, SheetFormat::MID, SheetFormat::MUS]
}

pub open spec fn digit_char(d: nat) -> char {
    ((d % 10) + '0' as nat) as char
}

/// The decimal digits of a number, most significant first, no leading zero.
pub open spec fn decimal(n: nat) -> Seq<char>
    decreases n,
{
    if n < 10 {
        seq![digit_char(n)]
    } else {
        decimal(n / 10).push(digit_char(n % 10))
    }
}

/// Where a sheet is downloaded from in a format.
pub open spec fn download_url_of(id: u32, f: SheetFormat) -> Seq<char> {
    ORIGIN@ + DOWNLOAD_PATH@ + format_name(f) + "/"@ + decimal(id as nat)
}

/// The folder that the sheets of a game of a series are written into.
pub open spec fn folder_of(series: Seq<char>, game: Seq<char>) -> Seq<char> {
    DOWNLOAD_ROOT@ + sanitized(series) + "/"@ + sanitized(game) + "/"@
}

/// The file that a sheet is written to in a format.
pub open spec fn file_path_of(folder: Seq<char>, name: Seq<char>, f: SheetFormat) -> Seq<char> {
    folder + sanitized(name) + "."@ + format_name(f)
}

/// Relies on `u32`'s `Display` through `ToString::to_string`: plain decimal
/// digits, no sign, no leading zero.
#[verifier::external_body]
fn decimal_string(n: u32) -> (r: String)
    ensures
        r@ == decimal(n as nat),
{
    n.to_string()
}

impl SheetFormat {
    /// The lowercase name of the format.
    pub fn name(&self) -> (r: &'static str)
        ensures
            r@ == format_name(*self),
    {
        match self {
            SheetFormat::PDF => "pdf",
            SheetFormat::MID => "mid",
            SheetFormat::MUS => "mus",
        }
    }

    /// Every format, in download order.
    pub fn all() -> (r: Vec<SheetFormat>)
        ensures
            r@ == formats(),
    {
        let r = vec![SheetFormat::PDF, SheetFormat::MID, SheetFormat::MUS];
        assert(r@ =~= formats());
        r
    }
}

/// The URL a sheet is downloaded from in a format.
pub fn download_url(id: u32, format: SheetFormat) -> (r: String)
    ensures
        r@ == download_url_of(id, format),
{
    let mut url = ORIGIN.to_owned();
    url.append(DOWNLOAD_PATH);
    url.append(format.name());
    url.append("/");
    let digits = decimal_string(id);
    url.append(digits.as_str());
    url
}

/// The folder the sheets of a game are written into.
pub fn game_folder(series_name: &str, game_name: &str) -> (r: String)
    ensures
        r@ == folder_of(series_name@, game_name@),
{
    let mut folder = DOWNLOAD_ROOT.to_owned();
    let s = sanitize_name(series_name);
    folder.append(s.as_str());
    folder.append("/");
    let g = sanitize_name(game_name);
    folder.append(g.as_str());
    folder.append("/");
    folder
}

impl Sheet {
    /// The URL this sheet is downloaded from in a format.
    pub fn get_download_url(&self, format: SheetFormat) -> (r: String)
        ensures
            r@ == download_url_of(self.id, format),
    {
        download_url(self.id, format)
    }

    /// The file this sheet is written to in a format, inside `folder`.
    pub fn file_path(&self, folder: &str, format: SheetFormat) -> (r: String)
        ensures
            r@ == file_path_of(folder@, self.name@, format),
    {
        let mut path = folder.to_owned();
        let n = sanitize_name(self.name.as_str());
        path.append(n.as_str());
        path.append(".");
        path.append(format.name());
        path
    }

    /// A copy of this sheet.
    pub fn copy(&self) -> (r: Sheet)
        ensures
            r@ == self@,
    {
        let mut arrangers: Vec<String> = Vec::new();
        let mut i: usize = 0;
        while i < self.arrangers.len()
            invariant
                i <= self.arrangers.len(),
                arrangers@.len() == i,
                forall|k: int| 0 <= k < i ==> arrangers@[k]@ == self.arrangers@[k]@,
            decreases self.arrangers.len() - i,
        {
            arrangers.push(self.arrangers[i].clone());
            i = i + 1;
        }
        proof {
            assert(strings_view(arrangers@) =~= strings_view(self.arrangers@));
        }
        Sheet { name: self.name.clone(), arrangers, id: self.id }
    }
}

/// The work-items of the sheets of one game: one for each sheet, in order.
pub open spec fn sheet_items(folder: Seq<char>, sheets: Seq<SheetView>) -> Seq<QueuedDownloadView> {
    sheets.map_values(|s: SheetView| QueuedDownloadView { folder, sheet: s })
}

/// The work-items of the games of one series, game after game.
pub open spec fn game_items(series: Seq<char>, games: Seq<GameView>) -> Seq<QueuedDownloadView> {
    games.flat_map(|g: GameView| sheet_items(folder_of(series, g.name), g.sheets))
}

/// The work-items of a catalog: one for each sheet, series after series.
pub open spec fn work_items_of(series: Seq<SeriesView>) -> Seq<QueuedDownloadView> {
    series.flat_map(|s: SeriesView| game_items(s.name, s.games))
}

pub open spec fn items_view(v: Seq<QueuedDownload>) -> Seq<QueuedDownloadView> {
    v.map_values(|q: QueuedDownload| q@)
}

proof fn lemma_items_push(v: Seq<QueuedDownload>, q: QueuedDownload)
    ensures
        items_view(v.push(q)) == items_view(v).push(q@),
{
    assert(items_view(v.push(q)) =~= items_view(v).push(q@));
}

fn push_sheet_items(out: &mut Vec<QueuedDownload>, folder: &String, sheets: &Vec<Sheet>)
    ensures
        items_view(final(out)@) == items_view(old(out)@) + sheet_items(
            folder@,
            sheets@.map_values(|s: Sheet| s@),
        ),
{
    let ghost start = items_view(out@);
    let ghost all = sheet_items(folder@, sheets@.map_values(|s: Sheet| s@));
    let mut i: usize = 0;
    while i < sheets.len()
        invariant
            i <= sheets.len(),
            all == sheet_items(folder@, sheets@.map_values(|s: Sheet| s@)),
            items_view(out@) == start + all.take(i as int),
        decreases sheets.len() - i,
    {
        let q = QueuedDownload { folder: folder.clone(), sheet: sheets[i].copy() };
        proof {
            lemma_items_push(out@, q);
            assert(all.take(i + 1) =~= all.take(i as int).push(q@));
        }
        out.push(q);
        i = i + 1;
    }
    proof {
        assert(all.take(i as int) =~= all);
    }
}

fn push_game_items(out: &mut Vec<QueuedDownload>, series: &Series)
    ensures
        items_view(final(out)@) == items_view(old(out)@) + game_items(series.name@, series@.games),
{
    let ghost start = items_view(out@);
    let ghost games = series@.games;
    let ghost f = |g: GameView| sheet_items(folder_of(series.name@, g.name), g.sheets);
    let mut i: usize = 0;
    while i < series.games.len()
        invariant
            i <= series.games.len(),
            games == series@.games,
            f == (|g: GameView| sheet_items(folder_of(series.name@, g.name), g.sheets)),
            items_view(out@) == start + games.take(i as int).flat_map(f),
        decreases series.games.len() - i,
    {
        let game = &series.games[i];
        let folder = game_folder(series.name.as_str(), game.name.as_str());
        push_sheet_items(out, &folder, &game.sheets);
        proof {
            games.lemma_flat_map_take_append(f, i as int);
            assert(games[i as int] == game@);
            assert(items_view(out@) =~= start + games.take(i + 1).flat_map(f));
        }
        i = i + 1;
    }
    proof {
        assert(games.take(i as int) =~= games);
    }
}

/// One work-item for every sheet of a crawled catalog, series after series,
/// game after game, each with the folder of its game.
pub fn work_items(series: &Vec<Series>) -> (r: Vec<QueuedDownload>)
    ensures
        items_view(r@) == work_items_of(series@.map_values(|s: Series| s@)),
{
    let ghost all = series@.map_values(|s: Series| s@);
    let ghost f = |s: SeriesView| game_items(s.name, s.games);
    let mut out: Vec<QueuedDownload> = Vec::new();
    let mut i: usize = 0;
    proof {
        assert(all.take(0).flat_map(f) =~= Seq::<QueuedDownloadView>::empty());
        assert(items_view(out@) =~= Seq::<QueuedDownloadView>::empty());
    }
    while i < series.len()
        invariant
            i <= series.len(),
            all == series@.map_values(|s: Series| s@),
            f == (|s: SeriesView| game_items(s.name, s.games)),
            items_view(out@) == all.take(i as int).flat_map(f),
        decreases series.len() - i,
    {
        push_game_items(&mut out, &series[i]);
        proof {
            all.lemma_flat_map_take_append(f, i as int);
            assert(all[i as int] == series[i as int]@);
            assert(items_view(out@) =~= all.take(i + 1).flat_map(f));
        }
        i = i + 1;
    }
    proof {
        assert(all.take(i as int) =~= all);
    }
    out
}

} // verus!
