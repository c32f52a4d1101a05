//! The pages and requests of the reading-list site, who may see them, and
//! where the recorded audio of a sentence is kept.
use vstd::prelude::*;
use crate::store;
use crate::text::{decimal_text, push_signed_decimal, same_text};

verus! {

pub const IMAGE_URL: &'static str = "https://static.wixstatic.com/media/82daf4_25d109065ad2499485b2f605379022a4.jpg/v1/fill/w_516,h_560,al_c,lg_1,q_80,enc_auto/82daf4_25d109065ad2499485b2f605379022a4.jpg";

pub const AUTH_URL: &'static str = "/auth";

pub const SENTENCES_URL: &'static str = "/sentences";

pub const ASSETS_URL: &'static str = "/assets";

pub const ASSETS_DIR: &'static str = "./assets";

pub struct IndexTemplate {
    pub image_url: String,
    pub auth_url: String,
}

pub struct SentencesTemplate {
    pub is_admin: bool,
    pub sentences_url: String,
    pub sentences: Vec<Sentence>,
}

/// A sentence as the list page shows it.
pub struct Sentence {
    pub id: i32,
    pub text: String,
}

impl Sentence {
    pub fn new(id: i32, text: String) -> (r: Sentence)
        ensures
            r.id == id,
            r.text == text,
    {
        Sentence { id, text }
    }
}

/// The body of a sign-in request.
pub struct Auth {
    pub tg_id: String,
}

/// The body of a request that adds a sentence.
pub struct AddSentence {
    pub text: String,
}

/// Whether `ids` lists `id`.
pub open spec fn listed(ids: Seq<String>, id: Seq<char>) -> bool {
    exists|i: int| 0 <= i < ids.len() && (#[trigger] ids[i])@ == id
}

/// Whether `ids` lists `id`: a user may sign in and see the pages when the
/// valid ids list them, and edits the list when the root ids list them.
pub fn is_listed(ids: &Vec<String>, id: &str) -> (r: bool)
    ensures
        r == listed(ids@, id@),
{
    let mut i: usize = 0;
    while i < ids.len()
        invariant
            i <= ids@.len(),
            forall|j: int| 0 <= j < i ==> (#[trigger] ids@[j])@ != id@,
        decreases ids@.len() - i,
    {
        if same_text(ids[i].as_str(), id) {
            return true;
        }
        i = i + 1;
    }
    false
}

/// The landing page.
pub fn index_page() -> (r: IndexTemplate)
    ensures
        r.image_url@ == IMAGE_URL@,
        r.auth_url@ == AUTH_URL@,
{
    IndexTemplate { image_url: String::from_str(IMAGE_URL), auth_url: String::from_str(AUTH_URL) }
}

/// The list page for user `user_id`: every stored sentence, in the order
/// given, and the editing controls when the root ids list the user.
pub fn sentences_page(root_ids: &Vec<String>, user_id: &str, rows: &Vec<store::Sentence>) -> (r:
    SentencesTemplate)
    ensures
        r.is_admin == listed(root_ids@, user_id@),
        r.sentences_url@ == SENTENCES_URL@,
        r.sentences@.len() == rows@.len(),
        forall|i: int|
            0 <= i < rows@.len() ==> (#[trigger] r.sentences@[i]).id == rows@[i].id
                && r.sentences@[i].text == rows@[i].text,
{
    let mut list: Vec<Sentence> = Vec::new();
    let mut i: usize = 0;
    while i < rows.len()
        invariant
            i <= rows@.len(),
            list@.len() == i,
            forall|j: int|
                0 <= j < i ==> (#[trigger] list@[j]).id == rows@[j].id && list@[j].text
                    == rows@[j].text,
        decreases rows@.len() - i,
    {
        list.push(Sentence::new(rows[i].id, rows[i].text.clone()));
        i = i + 1;
    }
    SentencesTemplate {
        is_admin: is_listed(root_ids, user_id),
        sentences_url: String::from_str(SENTENCES_URL),
        sentences: list,
    }
}

/// The file name of a sentence's audio: its id and `.mp3`.
pub fn audio_name(id: i32) -> (r: String)
    ensures
        r@ == decimal_text(id as int) + ".mp3"@,
{
    let mut r = String::new();
    push_signed_decimal(&mut r, id as i64);
    r.append(".mp3");
    r
}

/// The path of a sentence's audio under the assets directory.
pub fn audio_name_path(id: i32) -> (r: String)
    ensures
        r@ == ASSETS_DIR@ + "/"@ + decimal_text(id as int) + ".mp3"@,
{
    let mut r = String::from_str(ASSETS_DIR);
    r.append("/");
    let name = audio_name(id);
    r.append(name.as_str());
    assert(r@ =~= ASSETS_DIR@ + "/"@ + decimal_text(id as int) + ".mp3"@);
    r
}

/// The address at which the site serves the audio `uri`.
pub fn asset_url(uri: &str) -> (r: String)
    ensures
        r@ == ASSETS_URL@ + "/"@ + uri@,
{
    let mut r = String::from_str(ASSETS_URL);
    r.append("/");
    r.append(uri);
    r
}

} // verus!
