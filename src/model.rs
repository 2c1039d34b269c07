use vstd::prelude::*;

verus! {

/// The file formats in which every sheet is offered.
#[derive(Clone, Copy, Debug, PartialEq, Eq, Structural)]
pub enum SheetFormat {
    PDF,
    MID,
    MUS,
}

/// One downloadable arrangement, identified by its catalog number.
#[derive(Clone, Debug)]
pub struct Sheet {
    pub name: String,
    pub arrangers: Vec<String>,
    pub id: u32,
}

/// A title within a series, with the system it ran on and its sheets.
#[derive(Clone, Debug)]
pub struct Game {
    pub name: String,
    pub system: String,
    pub sheets: Vec<Sheet>,
}

/// A top-level grouping of games, found on the catalog's root listing.
#[derive(Clone, Debug)]
pub struct Series {
    pub name: String,
    pub url: String,
    pub games: Vec<Game>,
}

/// One unit of download work: the folder to write into and the sheet.
#[derive(Clone, Debug)]
pub struct QueuedDownload {
    pub folder: String,
    pub sheet: Sheet,
}

pub ghost struct SheetView {
    pub name: Seq<char>,
    pub arrangers: Seq<Seq<char>>,
    pub id: u32,
}

pub ghost struct GameView {
    pub name: Seq<char>,
    pub system: Seq<char>,
    pub sheets: Seq<SheetView>,
}

pub ghost struct SeriesView {
    pub name: Seq<char>,
    pub url: Seq<char>,
    pub games: Seq<GameView>,
}

pub ghost struct QueuedDownloadView {
    pub folder: Seq<char>,
    pub sheet: SheetView,
}

pub open spec fn strings_view(v: Seq<String>) -> Seq<Seq<char>> {
    v.map_values(|s: String| s@)
}

impl View for Sheet {
    type V = SheetView;

    open spec fn view(&self) -> SheetView {
        SheetView { name: self.name@, arrangers: strings_view(self.arrangers@), id: self.id }
    }
}

impl View for Game {
    type V = GameView;

    open spec fn view(&self) -> GameView {
        GameView {
            name: self.name@,
            system: self.system@,
            sheets: self.sheets@.map_values(|s: Sheet| s@),
        }
    }
}

impl View for Series {
    type V = SeriesView;

    open spec fn view(&self) -> SeriesView {
        SeriesView {
            name: self.name@,
            url: self.url@,
            games: self.games@.map_values(|g: Game| g@),
        }
    }
}

impl View for QueuedDownload {
    type V = QueuedDownloadView;

    open spec fn view(&self) -> QueuedDownloadView {
        QueuedDownloadView { folder: self.folder@, sheet: self.sheet@ }
    }
}

} // verus!
