use vstd::prelude::*;
use crate::text::{decimal, push_decimal};

verus! {

/// A board as the remote API lists it.
#[derive(Clone, Debug)]
pub struct Board {
    pub board: String,
    pub title: String,
    pub ws_board: u8,
    pub per_page: u16,
    pub pages: u16,
    pub meta_description: Option<String>,
}

#[derive(Clone, Debug)]
pub struct BoardList {
    pub boards: Vec<Board>,
}

/// A post as the remote API sends it.
#[derive(Clone, Debug)]
pub struct Post {
    pub no: u64,
    pub resto: u64,
    pub now: String,
    pub time: u64,
    pub name: Option<String>,
    pub trip: Option<String>,
    pub id: Option<String>,
    pub capcode: Option<String>,
    pub country: Option<String>,
    pub country_name: Option<String>,
    pub sub: Option<String>,
    pub com: Option<String>,
    pub tim: Option<u64>,
    pub filename: Option<String>,
    pub ext: Option<String>,
    pub fsize: Option<u64>,
    pub md5: Option<String>,
    pub w: Option<u32>,
    pub h: Option<u32>,
    pub tn_w: Option<u32>,
    pub tn_h: Option<u32>,
    pub filedeleted: Option<u8>,
    pub spoiler: Option<u8>,
    pub sticky: Option<u8>,
    pub closed: Option<u8>,
    pub replies: Option<u32>,
    pub images: Option<u32>,
    pub bumplimit: Option<u8>,
    pub imagelimit: Option<u8>,
    pub semantic_url: Option<String>,
    pub unique_ips: Option<u32>,
    pub last_modified: Option<u64>,
}

#[derive(Clone, Debug)]
pub struct Thread {
    pub posts: Vec<Post>,
}

/// A thread as the remote catalogue lists it.
#[derive(Clone, Debug)]
pub struct CatalogThread {
    pub no: u64,
    pub last_modified: u64,
    pub replies: u32,
    pub images: u32,
    pub page: Option<u8>,
    pub sub: Option<String>,
    pub com: Option<String>,
    pub tim: Option<u64>,
    pub filename: Option<String>,
    pub ext: Option<String>,
    pub w: Option<u32>,
    pub h: Option<u32>,
    pub tn_w: Option<u32>,
    pub tn_h: Option<u32>,
    pub sticky: Option<u8>,
    pub closed: Option<u8>,
    pub bumplimit: Option<u8>,
    pub imagelimit: Option<u8>,
    pub semantic_url: Option<String>,
    pub unique_ips: Option<u32>,
}

#[derive(Clone, Debug)]
pub struct CatalogPage {
    pub page: u8,
    pub threads: Vec<CatalogThread>,
}

/// Path of the board list.
pub fn boards_endpoint() -> (r: String)
    ensures
        r@ == "/boards.json"@,
{
    String::from_str("/boards.json")
}

/// Path of a board's catalogue.
pub fn catalog_endpoint(board: &str) -> (r: String)
    ensures
        r@ == "/"@ + board@ + "/catalog.json"@,
{
    let mut s = String::from_str("/");
    s.append(board);
    s.append("/catalog.json");
    s
}

/// Path of one thread of a board.
pub fn thread_endpoint(board: &str, thread_id: u64) -> (r: String)
    ensures
        r@ == "/"@ + board@ + "/thread/"@ + decimal(thread_id as nat) + ".json"@,
{
    let mut s = String::from_str("/");
    s.append(board);
    s.append("/thread/");
    push_decimal(&mut s, thread_id);
    s.append(".json");
    s
}

} // verus!
