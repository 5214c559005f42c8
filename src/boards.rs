use vstd::prelude::*;
use vstd::string::StrSliceExecFns;

verus! {

/// The section a board is listed under.
#[derive(Clone, Copy, Debug, PartialEq, Eq, Structural)]
pub enum BoardCategory {
    Favorites,
    Recent,
    JapaneseCulture,
    VideoGames,
    Interests,
    Creative,
    Other,
    /// Not safe for work.
    Misc,
    /// Not safe for work.
    Adult,
}

impl BoardCategory {
    pub open spec fn icon_spec(self) -> Seq<char> {
        match self {
            BoardCategory::Favorites => "\u{2b50}"@,
            BoardCategory::Recent => "\u{1f4dc}"@,
            BoardCategory::JapaneseCulture => "\u{1f47a}"@,
            BoardCategory::VideoGames => "\u{1f3ae}"@,
            BoardCategory::Interests => "\u{1f4a1}"@,
            BoardCategory::Creative => "\u{1f3a8}"@,
            BoardCategory::Other => "\u{1f4dd}"@,
            BoardCategory::Misc => "\u{1f51e}"@,
            BoardCategory::Adult => "\u{26d4}"@,
        }
    }

    pub open spec fn display_name_spec(self) -> Seq<char> {
        match self {
            BoardCategory::Favorites => "Favorites"@,
            BoardCategory::Recent => "Recent"@,
            BoardCategory::JapaneseCulture => "Japanese Culture"@,
            BoardCategory::VideoGames => "Video Games"@,
            BoardCategory::Interests => "Interests"@,
            BoardCategory::Creative => "Creative"@,
            BoardCategory::Other => "Other"@,
            BoardCategory::Misc => "Misc. (NSFW)"@,
            BoardCategory::Adult => "Adult (NSFW)"@,
        }
    }

    /// The sections whose boards are not safe for work.
    pub open spec fn is_nsfw(self) -> bool {
        self is Misc || self is Adult
    }

    /// The emoji shown beside the section.
    pub fn icon(&self) -> (r: &'static str)
        ensures
            r@ == self.icon_spec(),
    {
        match self {
            BoardCategory::Favorites => "\u{2b50}",
            BoardCategory::Recent => "\u{1f4dc}",
            BoardCategory::JapaneseCulture => "\u{1f47a}",
            BoardCategory::VideoGames => "\u{1f3ae}",
            BoardCategory::Interests => "\u{1f4a1}",
            BoardCategory::Creative => "\u{1f3a8}",
            BoardCategory::Other => "\u{1f4dd}",
            BoardCategory::Misc => "\u{1f51e}",
            BoardCategory::Adult => "\u{26d4}",
        }
    }

    /// The section's title.
    pub fn display_name(&self) -> (r: &'static str)
        ensures
            r@ == self.display_name_spec(),
    {
        match self {
            BoardCategory::Favorites => "Favorites",
            BoardCategory::Recent => "Recent",
            BoardCategory::JapaneseCulture => "Japanese Culture",
            BoardCategory::VideoGames => "Video Games",
            BoardCategory::Interests => "Interests",
            BoardCategory::Creative => "Creative",
            BoardCategory::Other => "Other",
            BoardCategory::Misc => "Misc. (NSFW)",
            BoardCategory::Adult => "Adult (NSFW)",
        }
    }
}

/// A board of the catalogue.
#[derive(Clone, Debug)]
pub struct BoardInfo {
    pub id: String,
    pub name: String,
    pub category: BoardCategory,
    pub nsfw: bool,
    pub description: Option<String>,
}

/// The section of a board id; unknown ids go under `Other`.
pub open spec fn category_of(id: Seq<char>) -> BoardCategory {
    if id == "a"@ || id == "c"@ || id == "w"@ || id == "m"@ || id == "cgl"@ || id == "cm"@ || id == "f"@ || id == "n"@ || id == "jp"@ {
        BoardCategory::JapaneseCulture
    }     else if id == "v"@ || id == "vg"@ || id == "vm"@ || id == "vmg"@ || id == "vp"@ || id == "vr"@ || id == "vrpg"@ || id == "vst"@ {
        BoardCategory::VideoGames
    }     else if id == "co"@ || id == "g"@ || id == "tv"@ || id == "k"@ || id == "o"@ || id == "an"@ || id == "tg"@ || id == "sp"@ || id == "asp"@ || id == "sci"@ || id == "his"@ || id == "int"@ || id == "out"@ || id == "toy"@ {
        BoardCategory::Interests
    }     else if id == "i"@ || id == "po"@ || id == "p"@ || id == "ck"@ || id == "ic"@ || id == "wg"@ || id == "lit"@ || id == "mu"@ || id == "fa"@ || id == "3"@ || id == "gd"@ || id == "diy"@ || id == "wsg"@ || id == "qst"@ {
        BoardCategory::Creative
    }     else if id == "biz"@ || id == "trv"@ || id == "fit"@ || id == "x"@ || id == "adv"@ || id == "lgbt"@ || id == "mlp"@ || id == "news"@ || id == "wsr"@ || id == "vip"@ {
        BoardCategory::Other
    }     else if id == "b"@ || id == "r9k"@ || id == "pol"@ || id == "bant"@ || id == "soc"@ || id == "s4s"@ {
        BoardCategory::Misc
    }     else if id == "s"@ || id == "hc"@ || id == "hm"@ || id == "h"@ || id == "e"@ || id == "u"@ || id == "d"@ || id == "y"@ || id == "t"@ || id == "hr"@ || id == "gif"@ || id == "aco"@ || id == "r"@ {
        BoardCategory::Adult
    } else {
        BoardCategory::Other
    }
}

fn same_text(a: &str, b: &str) -> (r: bool)
    ensures
        r == (a@ == b@),
{
    String::from_str(a) == String::from_str(b)
}

/// The section a board is listed under.
pub fn categorize_board(board_id: &str) -> (r: BoardCategory)
    ensures
        r == category_of(board_id@),
{
    if same_text(board_id, "a") || same_text(board_id, "c") || same_text(board_id, "w") || same_text(board_id, "m") || same_text(board_id, "cgl") || same_text(board_id, "cm") || same_text(board_id, "f") || same_text(board_id, "n") || same_text(board_id, "jp") {
        BoardCategory::JapaneseCulture
    }     else if same_text(board_id, "v") || same_text(board_id, "vg") || same_text(board_id, "vm") || same_text(board_id, "vmg") || same_text(board_id, "vp") || same_text(board_id, "vr") || same_text(board_id, "vrpg") || same_text(board_id, "vst") {
        BoardCategory::VideoGames
    }     else if same_text(board_id, "co") || same_text(board_id, "g") || same_text(board_id, "tv") || same_text(board_id, "k") || same_text(board_id, "o") || same_text(board_id, "an") || same_text(board_id, "tg") || same_text(board_id, "sp") || same_text(board_id, "asp") || same_text(board_id, "sci") || same_text(board_id, "his") || same_text(board_id, "int") || same_text(board_id, "out") || same_text(board_id, "toy") {
        BoardCategory::Interests
    }     else if same_text(board_id, "i") || same_text(board_id, "po") || same_text(board_id, "p") || same_text(board_id, "ck") || same_text(board_id, "ic") || same_text(board_id, "wg") || same_text(board_id, "lit") || same_text(board_id, "mu") || same_text(board_id, "fa") || same_text(board_id, "3") || same_text(board_id, "gd") || same_text(board_id, "diy") || same_text(board_id, "wsg") || same_text(board_id, "qst") {
        BoardCategory::Creative
    }     else if same_text(board_id, "biz") || same_text(board_id, "trv") || same_text(board_id, "fit") || same_text(board_id, "x") || same_text(board_id, "adv") || same_text(board_id, "lgbt") || same_text(board_id, "mlp") || same_text(board_id, "news") || same_text(board_id, "wsr") || same_text(board_id, "vip") {
        BoardCategory::Other
    }     else if same_text(board_id, "b") || same_text(board_id, "r9k") || same_text(board_id, "pol") || same_text(board_id, "bant") || same_text(board_id, "soc") || same_text(board_id, "s4s") {
        BoardCategory::Misc
    }     else if same_text(board_id, "s") || same_text(board_id, "hc") || same_text(board_id, "hm") || same_text(board_id, "h") || same_text(board_id, "e") || same_text(board_id, "u") || same_text(board_id, "d") || same_text(board_id, "y") || same_text(board_id, "t") || same_text(board_id, "hr") || same_text(board_id, "gif") || same_text(board_id, "aco") || same_text(board_id, "r") {
        BoardCategory::Adult
    } else {
        BoardCategory::Other
    }
}

/// The listed boards: id, title and section, in catalogue order.
pub open spec fn board_table() -> Seq<(Seq<char>, Seq<char>, BoardCategory)> {
    seq![
        ("a"@, "Anime & Manga"@, BoardCategory::JapaneseCulture),
        ("c"@, "Anime/Cute"@, BoardCategory::JapaneseCulture),
        ("w"@, "Anime/Wallpapers"@, BoardCategory::JapaneseCulture),
        ("m"@, "Mecha"@, BoardCategory::JapaneseCulture),
        ("cgl"@, "Cosplay & EGL"@, BoardCategory::JapaneseCulture),
        ("cm"@, "Cute/Male"@, BoardCategory::JapaneseCulture),
        ("f"@, "Flash"@, BoardCategory::JapaneseCulture),
        ("n"@, "Transportation"@, BoardCategory::JapaneseCulture),
        ("jp"@, "Otaku Culture"@, BoardCategory::JapaneseCulture),
        ("v"@, "Video Games"@, BoardCategory::VideoGames),
        ("vg"@, "Video Game Generals"@, BoardCategory::VideoGames),
        ("vm"@, "Video Games/Multiplayer"@, BoardCategory::VideoGames),
        ("vmg"@, "Video Games/Mobile"@, BoardCategory::VideoGames),
        ("vp"@, "Pok\u{e9}mon"@, BoardCategory::VideoGames),
        ("vr"@, "Retro Games"@, BoardCategory::VideoGames),
        ("vrpg"@, "Video Games/RPG"@, BoardCategory::VideoGames),
        ("vst"@, "Video Games/Strategy"@, BoardCategory::VideoGames),
        ("co"@, "Comics & Cartoons"@, BoardCategory::Interests),
        ("g"@, "Technology"@, BoardCategory::Interests),
        ("tv"@, "Television & Film"@, BoardCategory::Interests),
        ("k"@, "Weapons"@, BoardCategory::Interests),
        ("o"@, "Auto"@, BoardCategory::Interests),
        ("an"@, "Animals & Nature"@, BoardCategory::Interests),
        ("tg"@, "Traditional Games"@, BoardCategory::Interests),
        ("sp"@, "Sports"@, BoardCategory::Interests),
        ("asp"@, "Extreme Sports"@, BoardCategory::Interests),
        ("sci"@, "Science & Math"@, BoardCategory::Interests),
        ("his"@, "History & Humanities"@, BoardCategory::Interests),
        ("int"@, "International"@, BoardCategory::Interests),
        ("out"@, "Outdoors"@, BoardCategory::Interests),
        ("toy"@, "Toys"@, BoardCategory::Interests),
        ("i"@, "Oekaki"@, BoardCategory::Creative),
        ("po"@, "Papercraft & Origami"@, BoardCategory::Creative),
        ("p"@, "Photography"@, BoardCategory::Creative),
        ("ck"@, "Food & Cooking"@, BoardCategory::Creative),
        ("ic"@, "Artwork/Critique"@, BoardCategory::Creative),
        ("wg"@, "Wallpapers/General"@, BoardCategory::Creative),
        ("lit"@, "Literature"@, BoardCategory::Creative),
        ("mu"@, "Music"@, BoardCategory::Creative),
        ("fa"@, "Fashion"@, BoardCategory::Creative),
        ("3"@, "3DCG"@, BoardCategory::Creative),
        ("gd"@, "Graphic Design"@, BoardCategory::Creative),
        ("diy"@, "Do-It-Yourself"@, BoardCategory::Creative),
        ("wsg"@, "Worksafe GIF"@, BoardCategory::Creative),
        ("qst"@, "Quests"@, BoardCategory::Creative),
        ("biz"@, "Business & Finance"@, BoardCategory::Other),
        ("trv"@, "Travel"@, BoardCategory::Other),
        ("fit"@, "Fitness"@, BoardCategory::Other),
        ("x"@, "Paranormal"@, BoardCategory::Other),
        ("adv"@, "Advice"@, BoardCategory::Other),
        ("lgbt"@, "LGBT"@, BoardCategory::Other),
        ("mlp"@, "Pony"@, BoardCategory::Other),
        ("news"@, "Current News"@, BoardCategory::Other),
        ("wsr"@, "Worksafe Requests"@, BoardCategory::Other),
        ("vip"@, "Very Important Posts"@, BoardCategory::Other),
        ("b"@, "Random"@, BoardCategory::Misc),
        ("r9k"@, "ROBOT9001"@, BoardCategory::Misc),
        ("pol"@, "Politically Incorrect"@, BoardCategory::Misc),
        ("bant"@, "International/Random"@, BoardCategory::Misc),
        ("soc"@, "Cams & Meetups"@, BoardCategory::Misc),
        ("s4s"@, "Shit 4chan Says"@, BoardCategory::Misc),
        ("s"@, "Sexy Beautiful Women"@, BoardCategory::Adult),
        ("hc"@, "Hardcore"@, BoardCategory::Adult),
        ("hm"@, "Handsome Men"@, BoardCategory::Adult),
        ("h"@, "Hentai"@, BoardCategory::Adult),
        ("e"@, "Ecchi"@, BoardCategory::Adult),
        ("u"@, "Yuri"@, BoardCategory::Adult),
        ("d"@, "Hentai/Alternative"@, BoardCategory::Adult),
        ("y"@, "Yaoi"@, BoardCategory::Adult),
        ("t"@, "Torrents"@, BoardCategory::Adult),
        ("hr"@, "High Resolution"@, BoardCategory::Adult),
        ("gif"@, "Adult GIF"@, BoardCategory::Adult),
        ("aco"@, "Adult Cartoons"@, BoardCategory::Adult),
        ("r"@, "Adult Requests"@, BoardCategory::Adult),
    ]
}

fn board(id: &str, name: &str, category: BoardCategory) -> (r: BoardInfo)
    ensures
        r.id@ == id@,
        r.name@ == name@,
        r.category == category,
        r.nsfw == category.is_nsfw(),
        r.description is None,
{
    let nsfw = match category {
        BoardCategory::Misc | BoardCategory::Adult => true,
        _ => false,
    };
    BoardInfo { id: String::from_str(id), name: String::from_str(name), category, nsfw, description: None }
}

/// The board catalogue. Boards of the sections that are not safe for work
/// are flagged so; none has a description.
#[verifier::rlimit(60)]
pub fn get_all_boards_info() -> (r: Vec<BoardInfo>)
    ensures
        r@.len() == board_table().len(),
        forall|i: int| 0 <= i < r@.len() ==> {
            &&& (#[trigger] r@[i]).id@ == board_table()[i].0
            &&& r@[i].name@ == board_table()[i].1
            &&& r@[i].category == board_table()[i].2
            &&& r@[i].nsfw == r@[i].category.is_nsfw()
            &&& r@[i].description is None
        },
{
    let mut v: Vec<BoardInfo> = Vec::new();
    v.push(board("a", "Anime & Manga", BoardCategory::JapaneseCulture));
    v.push(board("c", "Anime/Cute", BoardCategory::JapaneseCulture));
    v.push(board("w", "Anime/Wallpapers", BoardCategory::JapaneseCulture));
    v.push(board("m", "Mecha", BoardCategory::JapaneseCulture));
    v.push(board("cgl", "Cosplay & EGL", BoardCategory::JapaneseCulture));
    v.push(board("cm", "Cute/Male", BoardCategory::JapaneseCulture));
    v.push(board("f", "Flash", BoardCategory::JapaneseCulture));
    v.push(board("n", "Transportation", BoardCategory::JapaneseCulture));
    v.push(board("jp", "Otaku Culture", BoardCategory::JapaneseCulture));
    v.push(board("v", "Video Games", BoardCategory::VideoGames));
    v.push(board("vg", "Video Game Generals", BoardCategory::VideoGames));
    v.push(board("vm", "Video Games/Multiplayer", BoardCategory::VideoGames));
    v.push(board("vmg", "Video Games/Mobile", BoardCategory::VideoGames));
    v.push(board("vp", "Pok\u{e9}mon", BoardCategory::VideoGames));
    v.push(board("vr", "Retro Games", BoardCategory::VideoGames));
    v.push(board("vrpg", "Video Games/RPG", BoardCategory::VideoGames));
    v.push(board("vst", "Video Games/Strategy", BoardCategory::VideoGames));
    v.push(board("co", "Comics & Cartoons", BoardCategory::Interests));
    v.push(board("g", "Technology", BoardCategory::Interests));
    v.push(board("tv", "Television & Film", BoardCategory::Interests));
    v.push(board("k", "Weapons", BoardCategory::Interests));
    v.push(board("o", "Auto", BoardCategory::Interests));
    v.push(board("an", "Animals & Nature", BoardCategory::Interests));
    v.push(board("tg", "Traditional Games", BoardCategory::Interests));
    v.push(board("sp", "Sports", BoardCategory::Interests));
    v.push(board("asp", "Extreme Sports", BoardCategory::Interests));
    v.push(board("sci", "Science & Math", BoardCategory::Interests));
    v.push(board("his", "History & Humanities", BoardCategory::Interests));
    v.push(board("int", "International", BoardCategory::Interests));
    v.push(board("out", "Outdoors", BoardCategory::Interests));
    v.push(board("toy", "Toys", BoardCategory::Interests));
    v.push(board("i", "Oekaki", BoardCategory::Creative));
    v.push(board("po", "Papercraft & Origami", BoardCategory::Creative));
    v.push(board("p", "Photography", BoardCategory::Creative));
    v.push(board("ck", "Food & Cooking", BoardCategory::Creative));
    v.push(board("ic", "Artwork/Critique", BoardCategory::Creative));
    v.push(board("wg", "Wallpapers/General", BoardCategory::Creative));
    v.push(board("lit", "Literature", BoardCategory::Creative));
    v.push(board("mu", "Music", BoardCategory::Creative));
    v.push(board("fa", "Fashion", BoardCategory::Creative));
    v.push(board("3", "3DCG", BoardCategory::Creative));
    v.push(board("gd", "Graphic Design", BoardCategory::Creative));
    v.push(board("diy", "Do-It-Yourself", BoardCategory::Creative));
    v.push(board("wsg", "Worksafe GIF", BoardCategory::Creative));
    v.push(board("qst", "Quests", BoardCategory::Creative));
    v.push(board("biz", "Business & Finance", BoardCategory::Other));
    v.push(board("trv", "Travel", BoardCategory::Other));
    v.push(board("fit", "Fitness", BoardCategory::Other));
    v.push(board("x", "Paranormal", BoardCategory::Other));
    v.push(board("adv", "Advice", BoardCategory::Other));
    v.push(board("lgbt", "LGBT", BoardCategory::Other));
    v.push(board("mlp", "Pony", BoardCategory::Other));
    v.push(board("news", "Current News", BoardCategory::Other));
    v.push(board("wsr", "Worksafe Requests", BoardCategory::Other));
    v.push(board("vip", "Very Important Posts", BoardCategory::Other));
    v.push(board("b", "Random", BoardCategory::Misc));
    v.push(board("r9k", "ROBOT9001", BoardCategory::Misc));
    v.push(board("pol", "Politically Incorrect", BoardCategory::Misc));
    v.push(board("bant", "International/Random", BoardCategory::Misc));
    v.push(board("soc", "Cams & Meetups", BoardCategory::Misc));
    v.push(board("s4s", "Shit 4chan Says", BoardCategory::Misc));
    v.push(board("s", "Sexy Beautiful Women", BoardCategory::Adult));
    v.push(board("hc", "Hardcore", BoardCategory::Adult));
    v.push(board("hm", "Handsome Men", BoardCategory::Adult));
    v.push(board("h", "Hentai", BoardCategory::Adult));
    v.push(board("e", "Ecchi", BoardCategory::Adult));
    v.push(board("u", "Yuri", BoardCategory::Adult));
    v.push(board("d", "Hentai/Alternative", BoardCategory::Adult));
    v.push(board("y", "Yaoi", BoardCategory::Adult));
    v.push(board("t", "Torrents", BoardCategory::Adult));
    v.push(board("hr", "High Resolution", BoardCategory::Adult));
    v.push(board("gif", "Adult GIF", BoardCategory::Adult));
    v.push(board("aco", "Adult Cartoons", BoardCategory::Adult));
    v.push(board("r", "Adult Requests", BoardCategory::Adult));
    v
}


/// The lower-case form of a text, as `str::to_lowercase` gives it.
pub uninterp spec fn lower_of(s: Seq<char>) -> Seq<char>;

/// Relies on `str::to_lowercase`: its result depends on the characters of
/// `s` alone, and an empty text stays empty.
#[verifier::external_body]
fn lowercase(s: &str) -> (r: String)
    ensures
        r@ == lower_of(s@),
        s@.len() == 0 ==> r@.len() == 0,
{
    s.to_lowercase()
}

/// `needle` occurs in `hay` at index `i`.
pub open spec fn occurs_at(hay: Seq<char>, needle: Seq<char>, i: int) -> bool {
    0 <= i && i + needle.len() <= hay.len() && hay.subrange(i, i + needle.len()) == needle
}

/// `needle` occurs somewhere in `hay`.
pub open spec fn contains_text(hay: Seq<char>, needle: Seq<char>) -> bool {
    exists|i: int| occurs_at(hay, needle, i)
}

fn occurs_at_exec(hay: &str, needle: &str, i: usize) -> (r: bool)
    requires
        i + needle@.len() <= hay@.len(),
    ensures
        r == occurs_at(hay@, needle@, i as int),
{
    let n = hay.unicode_len();
    let m = needle.unicode_len();
    let mut k: usize = 0;
    while k < m
        invariant
            n == hay@.len(),
            m == needle@.len(),
            i + m <= hay@.len(),
            k <= m,
            forall|j: int| 0 <= j < k ==> hay@[i + j] == #[trigger] needle@[j],
        decreases m - k,
    {
        if hay.get_char(i + k) != needle.get_char(k) {
            assert(hay@.subrange(i as int, i + m)[k as int] != needle@[k as int]);
            return false;
        }
        k = k + 1;
    }
    assert(hay@.subrange(i as int, i + m) =~= needle@);
    true
}

/// Tests whether `needle` occurs in `hay`.
pub fn contains_exec(hay: &str, needle: &str) -> (r: bool)
    ensures
        r == contains_text(hay@, needle@),
{
    let n = hay.unicode_len();
    let m = needle.unicode_len();
    if m > n {
        assert forall|i: int| !occurs_at(hay@, needle@, i) by {}
        return false;
    }
    let last = n - m;
    let mut i: usize = 0;
    loop
        invariant
            n == hay@.len(),
            m == needle@.len(),
            m <= n,
            last == n - m,
            i <= last,
            forall|j: int| 0 <= j < i ==> !occurs_at(hay@, needle@, j),
        ensures
            n == hay@.len(),
            m == needle@.len(),
            last == n - m,
            forall|j: int| 0 <= j <= last ==> !occurs_at(hay@, needle@, j),
        decreases last - i,
    {
        if occurs_at_exec(hay, needle, i) {
            return true;
        }
        if i == last {
            break;
        }
        i = i + 1;
    }
    assert forall|j: int| !occurs_at(hay@, needle@, j) by {}
    false
}

/// Whether a board matches a query, all three already in lower case: the
/// query occurs in the board's id or in its name.
pub fn board_matches(id_lower: &str, name_lower: &str, query_lower: &str) -> (r: bool)
    ensures
        r == (contains_text(id_lower@, query_lower@) || contains_text(name_lower@, query_lower@)),
{
    contains_exec(id_lower, query_lower) || contains_exec(name_lower, query_lower)
}

/// The boards of `boards` whose lower-case id or name holds the lower-case
/// `query`, in order.
pub open spec fn boards_matching(boards: Seq<(Seq<char>, Seq<char>, BoardCategory)>, query: Seq<char>) -> Seq<(Seq<char>, Seq<char>, BoardCategory)>
    decreases boards.len(),
{
    if boards.len() == 0 {
        boards
    } else if contains_text(lower_of(boards.last().0), lower_of(query)) || contains_text(lower_of(boards.last().1), lower_of(query)) {
        boards_matching(boards.drop_last(), query).push(boards.last())
    } else {
        boards_matching(boards.drop_last(), query)
    }
}

/// The boards of the catalogue whose id or name holds `query`, letter case
/// aside, in catalogue order.
pub fn search_boards(query: &str) -> (r: Vec<BoardInfo>)
    ensures
        r@.len() == boards_matching(board_table(), query@).len(),
        forall|i: int| 0 <= i < r@.len() ==> {
            &&& (#[trigger] r@[i]).id@ == boards_matching(board_table(), query@)[i].0
            &&& r@[i].name@ == boards_matching(board_table(), query@)[i].1
            &&& r@[i].category == boards_matching(board_table(), query@)[i].2
            &&& r@[i].nsfw == r@[i].category.is_nsfw()
            &&& r@[i].description is None
        },
{
    let all = get_all_boards_info();
    let query_lower = lowercase(query);
    let ghost table = board_table();
    let mut out: Vec<BoardInfo> = Vec::new();
    let mut k: usize = 0;
    while k < all.len()
        invariant
            k <= all@.len(),
            all@.len() == table.len(),
            table == board_table(),
            query_lower@ == lower_of(query@),
            forall|i: int| 0 <= i < all@.len() ==> {
                &&& (#[trigger] all@[i]).id@ == table[i].0
                &&& all@[i].name@ == table[i].1
                &&& all@[i].category == table[i].2
                &&& all@[i].nsfw == all@[i].category.is_nsfw()
                &&& all@[i].description is None
            },
            out@.len() == boards_matching(table.subrange(0, k as int), query@).len(),
            forall|i: int| 0 <= i < out@.len() ==> {
                &&& (#[trigger] out@[i]).id@ == boards_matching(table.subrange(0, k as int), query@)[i].0
                &&& out@[i].name@ == boards_matching(table.subrange(0, k as int), query@)[i].1
                &&& out@[i].category == boards_matching(table.subrange(0, k as int), query@)[i].2
                &&& out@[i].nsfw == out@[i].category.is_nsfw()
                &&& out@[i].description is None
            },
        decreases all@.len() - k,
    {
        proof {
            assert(table.subrange(0, k + 1).drop_last() =~= table.subrange(0, k as int));
        }
        let b = &all[k];
        let id_lower = lowercase(b.id.as_str());
        let name_lower = lowercase(b.name.as_str());
        if board_matches(id_lower.as_str(), name_lower.as_str(), query_lower.as_str()) {
            out.push(
                BoardInfo {
                    id: b.id.clone(),
                    name: b.name.clone(),
                    category: b.category,
                    nsfw: b.nsfw,
                    description: None,
                },
            );
        }
        k = k + 1;
    }
    proof {
        assert(table.subrange(0, table.len() as int) =~= table);
    }
    out
}

} // verus!
