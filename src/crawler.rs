use vstd::prelude::*;

use crate::dom::{
    attribute, attribute_of, class_members, class_members_of, inner_text, inner_text_of,
    node_count, node_count_of, parse_page, select, selected_of, tag_name, tag_name_of, Page,
};
use crate::model::{Game, GameView, Series, SeriesView, Sheet, SheetView};
use crate::text::{decode_entities, entities_decoded, parse_sheet_id, sheet_id_of};

verus! {

/// The site every catalog path is relative to.
pub const ORIGIN: &'static str = "https://www.ninsheetmusic.org";

/// The path prefix of every series listing.
pub const SERIES_PATH_PREFIX: &'static str = "/browse/series/";

pub const GAME_CLASS: &'static str = "game";

pub const GAME_HEADING: &'static str = "h3";

pub const SYSTEM_LINK: &'static str = "a[title]";

pub const SYSTEM_ATTRIBUTE: &'static str = "title";

pub const SHEET_ROW: &'static str = "li.tableList-row--sheet";

pub const SHEET_TITLE_CELL: &'static str = "div.tableList-cell--sheetTitle";

pub const SHEET_ARRANGER_CELL: &'static str = "div.tableList-cell--sheetArranger";

pub const ARRANGER_LINK: &'static str = "a[href]";

pub const ID_ATTRIBUTE: &'static str = "id";

pub const ANCHOR_TAG: &'static str = "a";

pub const HREF_ATTRIBUTE: &'static str = "href";

/// Why a page could not be read into catalog records.
#[derive(Clone, Copy, Debug, PartialEq, Eq, Structural)]
pub enum CrawlError {
    /// The page text could not be parsed as HTML.
    Document,
    /// An element or attribute that the page layout guarantees is missing,
    /// or a sheet number does not read as one.
    Layout,
}

/// All entries present, or `None` as soon as one is missing.
pub open spec fn all_some<A>(s: Seq<Option<A>>) -> Option<Seq<A>>
    decreases s.len(),
{
    if s.len() == 0 {
        Some(Seq::empty())
    } else {
        match all_some(s.drop_last()) {
            Some(p) => match s.last() {
                Some(x) => Some(p.push(x)),
                None => None,
            },
            None => None,
        }
    }
}

proof fn lemma_all_some_step<A>(s: Seq<Option<A>>, i: int, p: Seq<A>, x: A)
    requires
        0 <= i < s.len(),
        all_some(s.take(i)) == Some(p),
        s[i] == Some(x),
    ensures
        all_some(s.take(i + 1)) == Some(p.push(x)),
{
    assert(s.take(i + 1).drop_last() == s.take(i));
}

proof fn lemma_all_some_none<A>(s: Seq<Option<A>>, i: int)
    requires
        0 <= i < s.len(),
        s[i] is None,
    ensures
        all_some(s) is None,
    decreases s.len(),
{
    if i < s.len() - 1 {
        lemma_all_some_none(s.drop_last(), i);
    }
}

proof fn lemma_all_some_len<A>(s: Seq<Option<A>>)
    requires
        all_some(s) is Some,
    ensures
        all_some(s)->0.len() == s.len(),
        forall|i: int| 0 <= i < s.len() ==> s[i] == Some(#[trigger] all_some(s)->0[i]),
    decreases s.len(),
{
    if s.len() > 0 {
        lemma_all_some_len(s.drop_last());
    }
}

/// The first node that a selector matches below a node.
pub open spec fn first_selected(html: Seq<char>, node: u32, selector: Seq<char>) -> Option<u32> {
    match selected_of(html, node, selector) {
        Some(hs) => if hs.len() > 0 {
            Some(hs[0])
        } else {
            None
        },
        None => None,
    }
}

/// The decoded text of a node.
pub open spec fn decoded_text_of(html: Seq<char>, node: u32) -> Option<Seq<char>> {
    match inner_text_of(html, node) {
        Some(t) => Some(entities_decoded(t)),
        None => None,
    }
}

/// The decoded text of the first node that a selector matches below a node.
pub open spec fn first_text_of(html: Seq<char>, node: u32, selector: Seq<char>) -> Option<Seq<char>> {
    match first_selected(html, node, selector) {
        Some(h) => decoded_text_of(html, h),
        None => None,
    }
}

/// The decoded texts of the arranger links of a sheet row.
pub open spec fn arrangers_of(html: Seq<char>, row: u32) -> Option<Seq<Seq<char>>> {
    match first_selected(html, row, SHEET_ARRANGER_CELL@) {
        Some(cell) => match selected_of(html, cell, ARRANGER_LINK@) {
            Some(links) => all_some(links.map_values(|h: u32| decoded_text_of(html, h))),
            None => None,
        },
        None => None,
    }
}

/// The sheet that a sheet row describes, if the row is laid out as expected.
pub open spec fn sheet_of(html: Seq<char>, row: u32) -> Option<SheetView> {
    match attribute_of(html, row, ID_ATTRIBUTE@) {
        Some(a) => match sheet_id_of(a) {
            Some(id) => match first_text_of(html, row, SHEET_TITLE_CELL@) {
                Some(name) => match arrangers_of(html, row) {
                    Some(arrangers) => Some(SheetView { name, arrangers, id }),
                    None => None,
                },
                None => None,
            },
            None => None,
        },
        None => None,
    }
}

/// The system a game container names in the `title` of its first titled link.
pub open spec fn system_of(html: Seq<char>, node: u32) -> Option<Seq<char>> {
    match first_selected(html, node, SYSTEM_LINK@) {
        Some(h) => match attribute_of(html, h, SYSTEM_ATTRIBUTE@) {
            Some(t) => Some(entities_decoded(t)),
            None => None,
        },
        None => None,
    }
}

/// The sheets of the sheet rows below a game container, in document order.
pub open spec fn sheets_of(html: Seq<char>, node: u32) -> Option<Seq<SheetView>> {
    match selected_of(html, node, SHEET_ROW@) {
        Some(rows) => all_some(rows.map_values(|r: u32| sheet_of(html, r))),
        None => None,
    }
}

/// The game that a game container describes, if it is laid out as expected.
pub open spec fn game_of(html: Seq<char>, node: u32) -> Option<GameView> {
    match first_text_of(html, node, GAME_HEADING@) {
        Some(name) => match system_of(html, node) {
            Some(system) => match sheets_of(html, node) {
                Some(sheets) => Some(GameView { name, system, sheets }),
                None => None,
            },
            None => None,
        },
        None => None,
    }
}

/// The games of a series page, one for each game container, in document order.
pub open spec fn games_of(html: Seq<char>) -> Option<Seq<GameView>> {
    all_some(class_members_of(html, GAME_CLASS@).map_values(|h: u32| game_of(html, h)))
}

/// Finds the first node that `selector` matches below `node`.
fn first_match(page: &Page, node: u32, selector: &str) -> (r: Option<u32>)
    ensures
        r == first_selected(page.source(), node, selector@),
{
    match select(page, node, selector) {
        Some(v) => if v.len() > 0 {
            Some(v[0])
        } else {
            None
        },
        None => None,
    }
}

/// Reads the decoded text of the first node that `selector` matches below `node`.
fn first_text(page: &Page, node: u32, selector: &str) -> (r: Option<String>)
    ensures
        crate::dom::text_view(r) == first_text_of(page.source(), node, selector@),
{
    match first_match(page, node, selector) {
        Some(h) => match inner_text(page, h) {
            Some(t) => Some(decode_entities(&t)),
            None => None,
        },
        None => None,
    }
}

/// Reads the decoded arranger names of a sheet row.
fn parse_arrangers(page: &Page, row: u32) -> (r: Option<Vec<String>>)
    ensures
        match r {
            Some(v) => arrangers_of(page.source(), row) == Some(crate::model::strings_view(v@)),
            None => arrangers_of(page.source(), row) is None,
        },
{
    let ghost html = page.source();
    let cell = match first_match(page, row, SHEET_ARRANGER_CELL) {
        Some(c) => c,
        None => return None,
    };
    let links = match select(page, cell, ARRANGER_LINK) {
        Some(l) => l,
        None => return None,
    };
    let ghost s = links@.map_values(|h: u32| decoded_text_of(html, h));
    let mut out: Vec<String> = Vec::new();
    let mut i: usize = 0;
    while i < links.len()
        invariant
            i <= links.len(),
            s == links@.map_values(|h: u32| decoded_text_of(html, h)),
            html == page.source(),
            first_selected(html, row, SHEET_ARRANGER_CELL@) == Some(cell),
            selected_of(html, cell, ARRANGER_LINK@) == Some(links@),
            all_some(s.take(i as int)) == Some(crate::model::strings_view(out@)),
        decreases links.len() - i,
    {
        match inner_text(page, links[i]) {
            Some(t) => {
                let d = decode_entities(&t);
                proof {
                    assert(s[i as int] == Some(d@));
                    lemma_all_some_step(s, i as int, crate::model::strings_view(out@), d@);
                }
                out.push(d);
                proof {
                    assert(crate::model::strings_view(out@) =~= crate::model::strings_view(
                        out@.drop_last(),
                    ).push(d@));
                }
            },
            None => {
                proof {
                    assert(s[i as int] is None);
                    lemma_all_some_none(s, i as int);
                }
                return None;
            },
        }
        i = i + 1;
    }
    proof {
        assert(s.take(links@.len() as int) == s);
    }
    Some(out)
}

impl Sheet {
    /// Reads a sheet out of a sheet row: its number from the row's `id`, its
    /// title from the title cell, its arrangers from the links of the
    /// arranger cell.
    pub fn parse(page: &Page, row: u32) -> (r: Result<Sheet, CrawlError>)
        ensures
            match r {
                Ok(s) => sheet_of(page.source(), row) == Some(s@),
                Err(e) => sheet_of(page.source(), row) is None && e == CrawlError::Layout,
            },
    {
        let attr = match attribute(page, row, ID_ATTRIBUTE) {
            Some(a) => a,
            None => return Err(CrawlError::Layout),
        };
        let id = match parse_sheet_id(&attr) {
            Some(n) => n,
            None => return Err(CrawlError::Layout),
        };
        let name = match first_text(page, row, SHEET_TITLE_CELL) {
            Some(t) => t,
            None => return Err(CrawlError::Layout),
        };
        let arrangers = match parse_arrangers(page, row) {
            Some(a) => a,
            None => return Err(CrawlError::Layout),
        };
        Ok(Sheet { name, arrangers, id })
    }
}

/// Reads the system that a game container names.
fn parse_system(page: &Page, node: u32) -> (r: Option<String>)
    ensures
        crate::dom::text_view(r) == system_of(page.source(), node),
{
    match first_match(page, node, SYSTEM_LINK) {
        Some(h) => match attribute(page, h, SYSTEM_ATTRIBUTE) {
            Some(t) => Some(decode_entities(&t)),
            None => None,
        },
        None => None,
    }
}

/// Reads every sheet row below a game container, in document order.
fn parse_sheets(page: &Page, node: u32) -> (r: Result<Vec<Sheet>, CrawlError>)
    ensures
        match r {
            Ok(v) => sheets_of(page.source(), node) == Some(v@.map_values(|s: Sheet| s@)),
            Err(e) => sheets_of(page.source(), node) is None && e == CrawlError::Layout,
        },
{
    let ghost html = page.source();
    let rows = match select(page, node, SHEET_ROW) {
        Some(v) => v,
        None => return Err(CrawlError::Layout),
    };
    let ghost s = rows@.map_values(|r: u32| sheet_of(html, r));
    let mut out: Vec<Sheet> = Vec::new();
    let mut i: usize = 0;
    while i < rows.len()
        invariant
            i <= rows.len(),
            html == page.source(),
            s == rows@.map_values(|r: u32| sheet_of(html, r)),
            selected_of(html, node, SHEET_ROW@) == Some(rows@),
            all_some(s.take(i as int)) == Some(out@.map_values(|x: Sheet| x@)),
        decreases rows.len() - i,
    {
        match Sheet::parse(page, rows[i]) {
            Ok(sheet) => {
                proof {
                    assert(s[i as int] == Some(sheet@));
                    lemma_all_some_step(s, i as int, out@.map_values(|x: Sheet| x@), sheet@);
                }
                out.push(sheet);
                proof {
                    assert(out@.map_values(|x: Sheet| x@) =~= out@.drop_last().map_values(
                        |x: Sheet| x@,
                    ).push(out@.last()@));
                }
            },
            Err(e) => {
                proof {
                    assert(s[i as int] is None);
                    lemma_all_some_none(s, i as int);
                }
                return Err(e);
            },
        }
        i = i + 1;
    }
    proof {
        assert(s.take(rows@.len() as int) == s);
    }
    Ok(out)
}

impl Game {
    /// Reads a game out of a game container: its name from the first
    /// heading, its system from the first titled link, its sheets from the
    /// sheet rows.
    pub fn parse(page: &Page, node: u32) -> (r: Result<Game, CrawlError>)
        ensures
            match r {
                Ok(g) => game_of(page.source(), node) == Some(g@),
                Err(e) => game_of(page.source(), node) is None && e == CrawlError::Layout,
            },
    {
        let name = match first_text(page, node, GAME_HEADING) {
            Some(t) => t,
            None => return Err(CrawlError::Layout),
        };
        let system = match parse_system(page, node) {
            Some(t) => t,
            None => return Err(CrawlError::Layout),
        };
        let sheets = parse_sheets(page, node)?;
        Ok(Game { name, system, sheets })
    }
}

/// Reads every game container of a series page, in document order.
pub fn parse_games(html: &str) -> (r: Result<Vec<Game>, CrawlError>)
    ensures
        match r {
            Ok(v) => games_of(html@) == Some(v@.map_values(|g: Game| g@)),
            Err(CrawlError::Document) => html@.len() >= 0x4000_0000,
            Err(CrawlError::Layout) => games_of(html@) is None,
        },
{
    let page = match parse_page(html) {
        Some(p) => p,
        None => return Err(CrawlError::Document),
    };
    let ghost src = page.source();
    let nodes = class_members(&page, GAME_CLASS);
    let ghost s = nodes@.map_values(|h: u32| game_of(src, h));
    let mut out: Vec<Game> = Vec::new();
    let mut i: usize = 0;
    while i < nodes.len()
        invariant
            i <= nodes.len(),
            src == page.source(),
            src == html@,
            s == nodes@.map_values(|h: u32| game_of(src, h)),
            nodes@ == class_members_of(src, GAME_CLASS@),
            all_some(s.take(i as int)) == Some(out@.map_values(|x: Game| x@)),
        decreases nodes.len() - i,
    {
        match Game::parse(&page, nodes[i]) {
            Ok(game) => {
                proof {
                    assert(s[i as int] == Some(game@));
                    lemma_all_some_step(s, i as int, out@.map_values(|x: Game| x@), game@);
                }
                out.push(game);
                proof {
                    assert(out@.map_values(|x: Game| x@) =~= out@.drop_last().map_values(
                        |x: Game| x@,
                    ).push(out@.last()@));
                }
            },
            Err(e) => {
                proof {
                    assert(s[i as int] is None);
                    lemma_all_some_none(s, i as int);
                }
                return Err(e);
            },
        }
        i = i + 1;
    }
    proof {
        assert(s.take(nodes@.len() as int) == s);
    }
    Ok(out)
}

impl Series {
    /// Fills in the games of this series from the text of its page. On an
    /// error the series is left as it was.
    pub fn populate_games(&mut self, html: &str) -> (r: Result<(), CrawlError>)
        ensures
            final(self).name == old(self).name,
            final(self).url == old(self).url,
            match r {
                Ok(()) => games_of(html@) == Some(final(self)@.games),
                Err(CrawlError::Document) => html@.len() >= 0x4000_0000 && *final(self) == *old(self),
                Err(CrawlError::Layout) => games_of(html@) is None && *final(self) == *old(self),
            },
    {
        let games = parse_games(html)?;
        self.games = games;
        Ok(())
    }
}

/// A link target that names a series listing: it starts with the series
/// path prefix and holds no fragment marker.
pub open spec fn is_series_href(h: Seq<char>) -> bool {
    SERIES_PATH_PREFIX@.len() <= h.len() && h.take(SERIES_PATH_PREFIX@.len() as int)
        == SERIES_PATH_PREFIX@ && !h.contains('#')
}

/// A node is an anchor whose `href` names a series listing.
pub open spec fn is_series_link(html: Seq<char>, node: u32) -> bool {
    &&& tag_name_of(html, node) == Some(ANCHOR_TAG@)
    &&& attribute_of(html, node, HREF_ATTRIBUTE@) is Some
    &&& is_series_href(attribute_of(html, node, HREF_ATTRIBUTE@)->0)
}

/// The series that a series link stands for, with no games yet.
pub open spec fn series_at(html: Seq<char>, node: u32) -> SeriesView {
    SeriesView {
        name: entities_decoded(inner_text_of(html, node)->0),
        url: ORIGIN@ + attribute_of(html, node, HREF_ATTRIBUTE@)->0,
        games: Seq::empty(),
    }
}

/// The nodes of a page that have a handle (handles are `u32`).
pub open spec fn handled_nodes(html: Seq<char>) -> nat {
    if node_count_of(html) <= 0x1_0000_0000 {
        node_count_of(html)
    } else {
        0x1_0000_0000
    }
}

/// The series of the series links among the first `n` nodes, in document order.
pub open spec fn series_upto(html: Seq<char>, n: nat) -> Seq<SeriesView>
    decreases n,
{
    if n == 0 {
        Seq::empty()
    } else {
        let before = series_upto(html, (n - 1) as nat);
        if is_series_link(html, (n - 1) as u32) {
            before.push(series_at(html, (n - 1) as u32))
        } else {
            before
        }
    }
}

/// The series that a root listing page links to, in document order.
pub open spec fn series_listing(html: Seq<char>) -> Seq<SeriesView> {
    series_upto(html, handled_nodes(html))
}

/// Whether `s` starts with `prefix`.
fn starts_with(s: &str, prefix: &str) -> (r: bool)
    ensures
        r == (prefix@.len() <= s@.len() && s@.take(prefix@.len() as int) == prefix@),
{
    let n = prefix.unicode_len();
    if s.unicode_len() < n {
        return false;
    }
    let mut i: usize = 0;
    while i < n
        invariant
            n == prefix@.len(),
            n <= s@.len(),
            i <= n,
            forall|k: int| 0 <= k < i ==> s@[k] == prefix@[k],
        decreases n - i,
    {
        if s.get_char(i) != prefix.get_char(i) {
            proof {
                assert(s@.take(n as int)[i as int] != prefix@[i as int]);
            }
            return false;
        }
        i = i + 1;
    }
    proof {
        assert(s@.take(n as int) =~= prefix@);
    }
    true
}

/// Whether two texts are the same.
fn same_text(a: &str, b: &str) -> (r: bool)
    ensures
        r == (a@ == b@),
{
    let eq = a.unicode_len() == b.unicode_len() && starts_with(a, b);
    proof {
        if a@.len() == b@.len() {
            assert(a@.take(b@.len() as int) =~= a@);
        }
    }
    eq
}

/// Whether `s` holds the character `c`.
fn has_char(s: &str, c: char) -> (r: bool)
    ensures
        r == s@.contains(c),
{
    let n = s.unicode_len();
    let mut i: usize = 0;
    while i < n
        invariant
            n == s@.len(),
            i <= n,
            forall|k: int| 0 <= k < i ==> s@[k] != c,
        decreases n - i,
    {
        if s.get_char(i) == c {
            return true;
        }
        i = i + 1;
    }
    false
}

/// Whether a link target names a series listing.
pub fn series_href(h: &str) -> (r: bool)
    ensures
        r == is_series_href(h@),
{
    starts_with(h, SERIES_PATH_PREFIX) && !has_char(h, '#')
}

/// Reads the series that a root listing page links to: every anchor whose
/// `href` starts with the series path prefix and holds no `#`, in document
/// order, named by its decoded text and located on the catalog's origin.
pub fn fetch_series(html: &str) -> (r: Result<Vec<Series>, CrawlError>)
    ensures
        match r {
            Ok(v) => v@.map_values(|x: Series| x@) == series_listing(html@),
            Err(e) => e == CrawlError::Document && html@.len() >= 0x4000_0000,
        },
{
    let page = match parse_page(html) {
        Some(p) => p,
        None => return Err(CrawlError::Document),
    };
    let ghost src = page.source();
    let count = node_count(&page);
    let n: usize = if count as u64 > 0x1_0000_0000u64 {
        0x1_0000_0000u64 as usize
    } else {
        count
    };
    let mut out: Vec<Series> = Vec::new();
    let mut i: usize = 0;
    while i < n
        invariant
            src == page.source(),
            src == html@,
            n == handled_nodes(src),
            i <= n,
            out@.map_values(|x: Series| x@) == series_upto(src, i as nat),
        decreases n - i,
    {
        let node = i as u32;
        assert(node as int == i as int);
        let name = tag_name(&page, node);
        let href = attribute(&page, node, HREF_ATTRIBUTE);
        let is_link = match (&name, &href) {
            (Some(t), Some(h)) => {
                let is_anchor = same_text(t.as_str(), ANCHOR_TAG);
                is_anchor && series_href(h.as_str())
            },
            _ => false,
        };
        assert(is_link == is_series_link(src, node));
        assert(series_upto(src, (i + 1) as nat) == if is_series_link(src, node) {
            series_upto(src, i as nat).push(series_at(src, node))
        } else {
            series_upto(src, i as nat)
        });
        if is_link {
            let h = href.unwrap();
            let text = inner_text(&page, node).unwrap();
            let mut url = ORIGIN.to_owned();
            url.append(h.as_str());
            let series = Series { name: decode_entities(&text), url, games: Vec::new() };
            proof {
                assert(series@.games =~= Seq::<GameView>::empty());
                assert(series@ == series_at(src, node));
            }
            out.push(series);
            proof {
                assert(out@.map_values(|x: Series| x@) =~= out@.drop_last().map_values(
                    |x: Series| x@,
                ).push(out@.last()@));
            }
        }
        i = i + 1;
    }
    Ok(out)
}

/// Every qualifying series anchor of a root listing page gives exactly one
/// series: as many series as there are series links among the page's nodes.
pub proof fn lemma_one_series_per_link(html: Seq<char>)
    ensures
        series_listing(html).len() == Seq::new(handled_nodes(html), |i: int| i as u32).filter(
            |n: u32| is_series_link(html, n),
        ).len(),
{
    lemma_series_upto_count(html, handled_nodes(html));
}

proof fn lemma_series_upto_count(html: Seq<char>, n: nat)
    requires
        n <= 0x1_0000_0000,
    ensures
        series_upto(html, n).len() == Seq::new(n, |i: int| i as u32).filter(
            |m: u32| is_series_link(html, m),
        ).len(),
    decreases n,
{
    let p = |m: u32| is_series_link(html, m);
    if n > 0 {
        lemma_series_upto_count(html, (n - 1) as nat);
        let prev = Seq::new((n - 1) as nat, |i: int| i as u32);
        assert(Seq::new(n, |i: int| i as u32) =~= prev.push((n - 1) as u32));
        prev.lemma_filter_push((n - 1) as u32, p);
    } else {
        assert(Seq::new(n, |i: int| i as u32).filter(p) =~= Seq::<u32>::empty());
    }
}

/// A series page gives one game for each game container, in document
/// order, and each game has one sheet for each sheet row of its container,
/// in document order.
pub proof fn lemma_game_per_container(html: Seq<char>)
    requires
        games_of(html) is Some,
    ensures
        games_of(html)->0.len() == class_members_of(html, GAME_CLASS@).len(),
        forall|i: int|
            0 <= i < games_of(html)->0.len() ==> {
                let node = class_members_of(html, GAME_CLASS@)[i];
                &&& game_of(html, node) == Some(#[trigger] games_of(html)->0[i])
                &&& games_of(html)->0[i].sheets.len() == selected_of(html, node, SHEET_ROW@)->0.len()
            },
{
    let members = class_members_of(html, GAME_CLASS@);
    let s = members.map_values(|h: u32| game_of(html, h));
    lemma_all_some_len(s);
    assert forall|i: int| 0 <= i < games_of(html)->0.len() implies {
        let node = members[i];
        &&& game_of(html, node) == Some(#[trigger] games_of(html)->0[i])
        &&& games_of(html)->0[i].sheets.len() == selected_of(html, node, SHEET_ROW@)->0.len()
    } by {
        let node = members[i];
        assert(games_of(html) == all_some(s));
        assert(s[i] == Some(all_some(s)->0[i]));
        assert(s[i] == game_of(html, node));
        assert(game_of(html, node) is Some);
        assert(sheets_of(html, node) is Some);
        assert(selected_of(html, node, SHEET_ROW@) is Some);
        let rows = selected_of(html, node, SHEET_ROW@)->0;
        lemma_all_some_len(rows.map_values(|r: u32| sheet_of(html, r)));
    }
}

} // verus!
