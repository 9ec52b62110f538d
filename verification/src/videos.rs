//! The video resource: its records and the service listing them.

use vstd::prelude::*;
use crate::client::{Transport, BASE_URL};
use crate::error::Error;
use crate::json::{
    as_bool, as_int, as_opt_int, as_opt_str, as_str, find_field, from_text, lemma_find_field_at,
    lemma_views_of_fields_push, parse_text, views_of_fields, Json, JsonV, get_bool, get_i32,
    get_opt_str, get_opt_u32, get_str,
};
use crate::records::{
    get_list, get_opt_rec, get_rec, items_jsonv_spec, lemma_items_jsonv_wf,
    lemma_items_roundtrip, list_of_field,
    list_to_json, opt_int_jsonv, opt_rec_jsonv, opt_rec_of_field, opt_rec_to_json, opt_str_jsonv,
    opt_str_to_json, opt_u32_to_json, opt_u32_view, opt_view, rec_of_field, views_of_list,
    JsonRecord,
};
use crate::service::{opt_str_view, ApiRequest, Method, Service};
use crate::users::{
    lemma_pictures_jsonv_wf, lemma_pictures_roundtrip, lemma_user_jsonv_wf,
    lemma_user_roundtrip, Pictures, PicturesV, User, UserV,
};

verus! {

broadcast use vstd::string::group_string_axioms;

pub struct SubCategoryV {
    pub uri: Seq<char>,
    pub name: Seq<char>,
    pub link: Seq<char>,
}

impl SubCategoryV {
    /// Numeric fields fit their machine type, nested records likewise.
    pub open spec fn wf(self) -> bool {
        true
    }
}

/// A category below another.
#[derive(Debug, Clone, PartialEq)]
pub struct SubCategory {
    pub uri: String,
    pub name: String,
    pub link: String,
}

impl View for SubCategory {
    type V = SubCategoryV;

    open spec fn view(&self) -> SubCategoryV {
        SubCategoryV {
            uri: self.uri@,
            name: self.name@,
            link: self.link@,
        }
    }
}

impl JsonRecord for SubCategory {
    open spec fn to_jsonv_spec(vv: SubCategoryV) -> JsonV {
        JsonV::Obj(
            seq![
                ("uri"@, JsonV::Str(vv.uri)),
                ("name"@, JsonV::Str(vv.name)),
                ("link"@, JsonV::Str(vv.link)),
            ],
        )
    }

    open spec fn of_jsonv_spec(j: JsonV) -> Option<SubCategoryV> {
        match j {
            JsonV::Obj(f) => {
                let uri = as_str(find_field(f, "uri"@));
                let name = as_str(find_field(f, "name"@));
                let link = as_str(find_field(f, "link"@));
                if uri is Some && name is Some && link is Some {
                    Some(
                        SubCategoryV {
                            uri: uri->0,
                            name: name->0,
                            link: link->0,
                        },
                    )
                } else {
                    None
                }
            },
            _ => None,
        }
    }

    fn to_json(&self) -> (r: Json)
        ensures
            r@ == Self::to_jsonv_spec(self@),
    {
        let mut f: Vec<(String, Json)> = Vec::new();
        let p = ("uri".to_owned(), Json::Str(self.uri.clone()));
        proof {
            lemma_views_of_fields_push(f@, p);
        }
        f.push(p);
        let p = ("name".to_owned(), Json::Str(self.name.clone()));
        proof {
            lemma_views_of_fields_push(f@, p);
        }
        f.push(p);
        let p = ("link".to_owned(), Json::Str(self.link.clone()));
        proof {
            lemma_views_of_fields_push(f@, p);
        }
        f.push(p);
        proof {
            assert(views_of_fields(f@) =~= seq![
                ("uri"@, JsonV::Str(self@.uri)),
                ("name"@, JsonV::Str(self@.name)),
                ("link"@, JsonV::Str(self@.link)),
            ]);
        }
        Json::Obj(f)
    }

    fn from_json(j: &Json) -> (r: Option<SubCategory>)
        ensures
            match r {
                Some(x) => Self::of_jsonv_spec(j@) == Some(x@),
                None => Self::of_jsonv_spec(j@) is None,
            },
    {
        let fields = match j {
            Json::Obj(f) => f,
            _ => {
                return None;
            },
        };
        let uri = match get_str(fields, "uri") {
            Some(v) => v,
            None => {
                return None;
            },
        };
        let name = match get_str(fields, "name") {
            Some(v) => v,
            None => {
                return None;
            },
        };
        let link = match get_str(fields, "link") {
            Some(v) => v,
            None => {
                return None;
            },
        };
        Some(SubCategory { uri, name, link })
    }
}

/// The record decodes back from its own encoding, field for field.
pub proof fn lemma_sub_category_roundtrip(v: SubCategoryV)
    requires
        v.wf(),
    ensures
        SubCategory::of_jsonv_spec(SubCategory::to_jsonv_spec(v)) == Some(v),
{
    reveal_strlit("link");
    reveal_strlit("name");
    reveal_strlit("uri");
    assert("link"@.len() == 4);
    assert("name"@.len() == 4);
    assert("uri"@.len() == 3);
    let f = seq![
        ("uri"@, JsonV::Str(v.uri)),
        ("name"@, JsonV::Str(v.name)),
        ("link"@, JsonV::Str(v.link)),
    ];
    assert("name"@[0] == 'n' && "link"@[0] == 'l');
    assert("name"@ != "link"@);
    assert(find_field(f, "uri"@) == Some(JsonV::Str(v.uri))) by {
        assert(f[0].0 == "uri"@);
        assert forall|q: int| 0 <= q < 0 implies (#[trigger] f[q]).0 != "uri"@ by {}
        lemma_find_field_at(f, "uri"@, 0);
    }
    assert(find_field(f, "name"@) == Some(JsonV::Str(v.name))) by {
        assert(f[1].0 == "name"@);
        assert forall|q: int| 0 <= q < 1 implies (#[trigger] f[q]).0 != "name"@ by {}
        lemma_find_field_at(f, "name"@, 1);
    }
    assert(find_field(f, "link"@) == Some(JsonV::Str(v.link))) by {
        assert(f[2].0 == "link"@);
        assert forall|q: int| 0 <= q < 2 implies (#[trigger] f[q]).0 != "link"@ by {}
        lemma_find_field_at(f, "link"@, 2);
    }
}

pub struct TagV {
    pub uri: Seq<char>,
    pub name: Seq<char>,
    pub tag: Seq<char>,
    pub canonical: Seq<char>,
    pub resource_key: Seq<char>,
}

impl TagV {
    /// Numeric fields fit their machine type, nested records likewise.
    pub open spec fn wf(self) -> bool {
        true
    }
}

/// A tag put on a video.
#[derive(Debug, Clone, PartialEq)]
pub struct Tag {
    pub uri: String,
    pub name: String,
    pub tag: String,
    pub canonical: String,
    pub resource_key: String,
}

impl View for Tag {
    type V = TagV;

    open spec fn view(&self) -> TagV {
        TagV {
            uri: self.uri@,
            name: self.name@,
            tag: self.tag@,
            canonical: self.canonical@,
            resource_key: self.resource_key@,
        }
    }
}

impl JsonRecord for Tag {
    open spec fn to_jsonv_spec(vv: TagV) -> JsonV {
        JsonV::Obj(
            seq![
                ("uri"@, JsonV::Str(vv.uri)),
                ("name"@, JsonV::Str(vv.name)),
                ("tag"@, JsonV::Str(vv.tag)),
                ("canonical"@, JsonV::Str(vv.canonical)),
                ("resource_key"@, JsonV::Str(vv.resource_key)),
            ],
        )
    }

    open spec fn of_jsonv_spec(j: JsonV) -> Option<TagV> {
        match j {
            JsonV::Obj(f) => {
                let uri = as_str(find_field(f, "uri"@));
                let name = as_str(find_field(f, "name"@));
                let tag = as_str(find_field(f, "tag"@));
                let canonical = as_str(find_field(f, "canonical"@));
                let resource_key = as_str(find_field(f, "resource_key"@));
                if uri is Some && name is Some && tag is Some && canonical is Some && resource_key is Some {
                    Some(
                        TagV {
                            uri: uri->0,
                            name: name->0,
                            tag: tag->0,
                            canonical: canonical->0,
                            resource_key: resource_key->0,
                        },
                    )
                } else {
                    None
                }
            },
            _ => None,
        }
    }

    fn to_json(&self) -> (r: Json)
        ensures
            r@ == Self::to_jsonv_spec(self@),
    {
        let mut f: Vec<(String, Json)> = Vec::new();
        let p = ("uri".to_owned(), Json::Str(self.uri.clone()));
        proof {
            lemma_views_of_fields_push(f@, p);
        }
        f.push(p);
        let p = ("name".to_owned(), Json::Str(self.name.clone()));
        proof {
            lemma_views_of_fields_push(f@, p);
        }
        f.push(p);
        let p = ("tag".to_owned(), Json::Str(self.tag.clone()));
        proof {
            lemma_views_of_fields_push(f@, p);
        }
        f.push(p);
        let p = ("canonical".to_owned(), Json::Str(self.canonical.clone()));
        proof {
            lemma_views_of_fields_push(f@, p);
        }
        f.push(p);
        let p = ("resource_key".to_owned(), Json::Str(self.resource_key.clone()));
        proof {
            lemma_views_of_fields_push(f@, p);
        }
        f.push(p);
        proof {
            assert(views_of_fields(f@) =~= seq![
                ("uri"@, JsonV::Str(self@.uri)),
                ("name"@, JsonV::Str(self@.name)),
                ("tag"@, JsonV::Str(self@.tag)),
                ("canonical"@, JsonV::Str(self@.canonical)),
                ("resource_key"@, JsonV::Str(self@.resource_key)),
            ]);
        }
        Json::Obj(f)
    }

    fn from_json(j: &Json) -> (r: Option<Tag>)
        ensures
            match r {
                Some(x) => Self::of_jsonv_spec(j@) == Some(x@),
                None => Self::of_jsonv_spec(j@) is None,
            },
    {
        let fields = match j {
            Json::Obj(f) => f,
            _ => {
                return None;
            },
        };
        let uri = match get_str(fields, "uri") {
            Some(v) => v,
            None => {
                return None;
            },
        };
        let name = match get_str(fields, "name") {
            Some(v) => v,
            None => {
                return None;
            },
        };
        let tag = match get_str(fields, "tag") {
            Some(v) => v,
            None => {
                return None;
            },
        };
        let canonical = match get_str(fields, "canonical") {
            Some(v) => v,
            None => {
                return None;
            },
        };
        let resource_key = match get_str(fields, "resource_key") {
            Some(v) => v,
            None => {
                return None;
            },
        };
        Some(Tag { uri, name, tag, canonical, resource_key })
    }
}

/// The record decodes back from its own encoding, field for field.
pub proof fn lemma_tag_roundtrip(v: TagV)
    requires
        v.wf(),
    ensures
        Tag::of_jsonv_spec(Tag::to_jsonv_spec(v)) == Some(v),
{
    reveal_strlit("canonical");
    reveal_strlit("name");
    reveal_strlit("resource_key");
    reveal_strlit("tag");
    reveal_strlit("uri");
    assert("canonical"@.len() == 9);
    assert("name"@.len() == 4);
    assert("resource_key"@.len() == 12);
    assert("tag"@.len() == 3);
    assert("uri"@.len() == 3);
    let f = seq![
        ("uri"@, JsonV::Str(v.uri)),
        ("name"@, JsonV::Str(v.name)),
        ("tag"@, JsonV::Str(v.tag)),
        ("canonical"@, JsonV::Str(v.canonical)),
        ("resource_key"@, JsonV::Str(v.resource_key)),
    ];
    assert("uri"@[0] == 'u' && "tag"@[0] == 't');
    assert("uri"@ != "tag"@);
    assert(find_field(f, "uri"@) == Some(JsonV::Str(v.uri))) by {
        assert(f[0].0 == "uri"@);
        assert forall|q: int| 0 <= q < 0 implies (#[trigger] f[q]).0 != "uri"@ by {}
        lemma_find_field_at(f, "uri"@, 0);
    }
    assert(find_field(f, "name"@) == Some(JsonV::Str(v.name))) by {
        assert(f[1].0 == "name"@);
        assert forall|q: int| 0 <= q < 1 implies (#[trigger] f[q]).0 != "name"@ by {}
        lemma_find_field_at(f, "name"@, 1);
    }
    assert(find_field(f, "tag"@) == Some(JsonV::Str(v.tag))) by {
        assert(f[2].0 == "tag"@);
        assert forall|q: int| 0 <= q < 2 implies (#[trigger] f[q]).0 != "tag"@ by {}
        lemma_find_field_at(f, "tag"@, 2);
    }
    assert(find_field(f, "canonical"@) == Some(JsonV::Str(v.canonical))) by {
        assert(f[3].0 == "canonical"@);
        assert forall|q: int| 0 <= q < 3 implies (#[trigger] f[q]).0 != "canonical"@ by {}
        lemma_find_field_at(f, "canonical"@, 3);
    }
    assert(find_field(f, "resource_key"@) == Some(JsonV::Str(v.resource_key))) by {
        assert(f[4].0 == "resource_key"@);
        assert forall|q: int| 0 <= q < 4 implies (#[trigger] f[q]).0 != "resource_key"@ by {}
        lemma_find_field_at(f, "resource_key"@, 4);
    }
}

pub struct StatsV {
    pub plays: int,
}

impl StatsV {
    /// Numeric fields fit their machine type, nested records likewise.
    pub open spec fn wf(self) -> bool {
        i32::MIN <= self.plays <= i32::MAX
    }
}

/// Play statistics of a video.
#[derive(Debug, Clone, PartialEq)]
pub struct Stats {
    pub plays: i32,
}

impl View for Stats {
    type V = StatsV;

    open spec fn view(&self) -> StatsV {
        StatsV {
            plays: self.plays as int,
        }
    }
}

impl JsonRecord for Stats {
    open spec fn to_jsonv_spec(vv: StatsV) -> JsonV {
        JsonV::Obj(
            seq![
                ("plays"@, JsonV::Int(vv.plays)),
            ],
        )
    }

    open spec fn of_jsonv_spec(j: JsonV) -> Option<StatsV> {
        match j {
            JsonV::Obj(f) => {
                let plays = as_int(find_field(f, "plays"@));
                if plays is Some && i32::MIN <= plays->0 <= i32::MAX {
                    Some(
                        StatsV {
                            plays: plays->0,
                        },
                    )
                } else {
                    None
                }
            },
            _ => None,
        }
    }

    fn to_json(&self) -> (r: Json)
        ensures
            r@ == Self::to_jsonv_spec(self@),
    {
        let mut f: Vec<(String, Json)> = Vec::new();
        let p = ("plays".to_owned(), Json::Int(self.plays as i64));
        proof {
            lemma_views_of_fields_push(f@, p);
        }
        f.push(p);
        proof {
            assert(views_of_fields(f@) =~= seq![
                ("plays"@, JsonV::Int(self@.plays)),
            ]);
        }
        Json::Obj(f)
    }

    fn from_json(j: &Json) -> (r: Option<Stats>)
        ensures
            match r {
                Some(x) => Self::of_jsonv_spec(j@) == Some(x@),
                None => Self::of_jsonv_spec(j@) is None,
            },
    {
        let fields = match j {
            Json::Obj(f) => f,
            _ => {
                return None;
            },
        };
        let plays = match get_i32(fields, "plays") {
            Some(v) => v,
            None => {
                return None;
            },
        };
        Some(Stats { plays })
    }
}

/// The record decodes back from its own encoding, field for field.
pub proof fn lemma_stats_roundtrip(v: StatsV)
    requires
        v.wf(),
    ensures
        Stats::of_jsonv_spec(Stats::to_jsonv_spec(v)) == Some(v),
{
    reveal_strlit("plays");
    assert("plays"@.len() == 5);
    let f = seq![
        ("plays"@, JsonV::Int(v.plays)),
    ];
    assert(find_field(f, "plays"@) == Some(JsonV::Int(v.plays))) by {
        assert(f[0].0 == "plays"@);
        assert forall|q: int| 0 <= q < 0 implies (#[trigger] f[q]).0 != "plays"@ by {}
        lemma_find_field_at(f, "plays"@, 0);
    }
}

pub struct ButtonsV {
    pub like: bool,
    pub watchlater: bool,
    pub share: bool,
    pub embed: bool,
    pub vote: bool,
    pub hd: bool,
}

impl ButtonsV {
    /// Numeric fields fit their machine type, nested records likewise.
    pub open spec fn wf(self) -> bool {
        true
    }
}

/// Which buttons the embedded player shows.
#[derive(Debug, Clone, PartialEq)]
pub struct Buttons {
    pub like: bool,
    pub watchlater: bool,
    pub share: bool,
    pub embed: bool,
    pub vote: bool,
    pub hd: bool,
}

impl View for Buttons {
    type V = ButtonsV;

    open spec fn view(&self) -> ButtonsV {
        ButtonsV {
            like: self.like,
            watchlater: self.watchlater,
            share: self.share,
            embed: self.embed,
            vote: self.vote,
            hd: self.hd,
        }
    }
}

impl JsonRecord for Buttons {
    open spec fn to_jsonv_spec(vv: ButtonsV) -> JsonV {
        JsonV::Obj(
            seq![
                ("like"@, JsonV::Bool(vv.like)),
                ("watchlater"@, JsonV::Bool(vv.watchlater)),
                ("share"@, JsonV::Bool(vv.share)),
                ("embed"@, JsonV::Bool(vv.embed)),
                ("vote"@, JsonV::Bool(vv.vote)),
                ("HD"@, JsonV::Bool(vv.hd)),
            ],
        )
    }

    open spec fn of_jsonv_spec(j: JsonV) -> Option<ButtonsV> {
        match j {
            JsonV::Obj(f) => {
                let like = as_bool(find_field(f, "like"@));
                let watchlater = as_bool(find_field(f, "watchlater"@));
                let share = as_bool(find_field(f, "share"@));
                let embed = as_bool(find_field(f, "embed"@));
                let vote = as_bool(find_field(f, "vote"@));
                let hd = as_bool(find_field(f, "HD"@));
                if like is Some && watchlater is Some && share is Some && embed is Some && vote is Some && hd is Some {
                    Some(
                        ButtonsV {
                            like: like->0,
                            watchlater: watchlater->0,
                            share: share->0,
                            embed: embed->0,
                            vote: vote->0,
                            hd: hd->0,
                        },
                    )
                } else {
                    None
                }
            },
            _ => None,
        }
    }

    fn to_json(&self) -> (r: Json)
        ensures
            r@ == Self::to_jsonv_spec(self@),
    {
        let mut f: Vec<(String, Json)> = Vec::new();
        let p = ("like".to_owned(), Json::Bool(self.like));
        proof {
            lemma_views_of_fields_push(f@, p);
        }
        f.push(p);
        let p = ("watchlater".to_owned(), Json::Bool(self.watchlater));
        proof {
            lemma_views_of_fields_push(f@, p);
        }
        f.push(p);
        let p = ("share".to_owned(), Json::Bool(self.share));
        proof {
            lemma_views_of_fields_push(f@, p);
        }
        f.push(p);
        let p = ("embed".to_owned(), Json::Bool(self.embed));
        proof {
            lemma_views_of_fields_push(f@, p);
        }
        f.push(p);
        let p = ("vote".to_owned(), Json::Bool(self.vote));
        proof {
            lemma_views_of_fields_push(f@, p);
        }
        f.push(p);
        let p = ("HD".to_owned(), Json::Bool(self.hd));
        proof {
            lemma_views_of_fields_push(f@, p);
        }
        f.push(p);
        proof {
            assert(views_of_fields(f@) =~= seq![
                ("like"@, JsonV::Bool(self@.like)),
                ("watchlater"@, JsonV::Bool(self@.watchlater)),
                ("share"@, JsonV::Bool(self@.share)),
                ("embed"@, JsonV::Bool(self@.embed)),
                ("vote"@, JsonV::Bool(self@.vote)),
                ("HD"@, JsonV::Bool(self@.hd)),
            ]);
        }
        Json::Obj(f)
    }

    fn from_json(j: &Json) -> (r: Option<Buttons>)
        ensures
            match r {
                Some(x) => Self::of_jsonv_spec(j@) == Some(x@),
                None => Self::of_jsonv_spec(j@) is None,
            },
    {
        let fields = match j {
            Json::Obj(f) => f,
            _ => {
                return None;
            },
        };
        let like = match get_bool(fields, "like") {
            Some(v) => v,
            None => {
                return None;
            },
        };
        let watchlater = match get_bool(fields, "watchlater") {
            Some(v) => v,
            None => {
                return None;
            },
        };
        let share = match get_bool(fields, "share") {
            Some(v) => v,
            None => {
                return None;
            },
        };
        let embed = match get_bool(fields, "embed") {
            Some(v) => v,
            None => {
                return None;
            },
        };
        let vote = match get_bool(fields, "vote") {
            Some(v) => v,
            None => {
                return None;
            },
        };
        let hd = match get_bool(fields, "HD") {
            Some(v) => v,
            None => {
                return None;
            },
        };
        Some(Buttons { like, watchlater, share, embed, vote, hd })
    }
}

/// The record decodes back from its own encoding, field for field.
pub proof fn lemma_buttons_roundtrip(v: ButtonsV)
    requires
        v.wf(),
    ensures
        Buttons::of_jsonv_spec(Buttons::to_jsonv_spec(v)) == Some(v),
{
    reveal_strlit("HD");
    reveal_strlit("embed");
    reveal_strlit("like");
    reveal_strlit("share");
    reveal_strlit("vote");
    reveal_strlit("watchlater");
    assert("HD"@.len() == 2);
    assert("embed"@.len() == 5);
    assert("like"@.len() == 4);
    assert("share"@.len() == 5);
    assert("vote"@.len() == 4);
    assert("watchlater"@.len() == 10);
    let f = seq![
        ("like"@, JsonV::Bool(v.like)),
        ("watchlater"@, JsonV::Bool(v.watchlater)),
        ("share"@, JsonV::Bool(v.share)),
        ("embed"@, JsonV::Bool(v.embed)),
        ("vote"@, JsonV::Bool(v.vote)),
        ("HD"@, JsonV::Bool(v.hd)),
    ];
    assert("share"@[0] == 's' && "embed"@[0] == 'e');
    assert("share"@ != "embed"@);
    assert("like"@[0] == 'l' && "vote"@[0] == 'v');
    assert("like"@ != "vote"@);
    assert(find_field(f, "like"@) == Some(JsonV::Bool(v.like))) by {
        assert(f[0].0 == "like"@);
        assert forall|q: int| 0 <= q < 0 implies (#[trigger] f[q]).0 != "like"@ by {}
        lemma_find_field_at(f, "like"@, 0);
    }
    assert(find_field(f, "watchlater"@) == Some(JsonV::Bool(v.watchlater))) by {
        assert(f[1].0 == "watchlater"@);
        assert forall|q: int| 0 <= q < 1 implies (#[trigger] f[q]).0 != "watchlater"@ by {}
        lemma_find_field_at(f, "watchlater"@, 1);
    }
    assert(find_field(f, "share"@) == Some(JsonV::Bool(v.share))) by {
        assert(f[2].0 == "share"@);
        assert forall|q: int| 0 <= q < 2 implies (#[trigger] f[q]).0 != "share"@ by {}
        lemma_find_field_at(f, "share"@, 2);
    }
    assert(find_field(f, "embed"@) == Some(JsonV::Bool(v.embed))) by {
        assert(f[3].0 == "embed"@);
        assert forall|q: int| 0 <= q < 3 implies (#[trigger] f[q]).0 != "embed"@ by {}
        lemma_find_field_at(f, "embed"@, 3);
    }
    assert(find_field(f, "vote"@) == Some(JsonV::Bool(v.vote))) by {
        assert(f[4].0 == "vote"@);
        assert forall|q: int| 0 <= q < 4 implies (#[trigger] f[q]).0 != "vote"@ by {}
        lemma_find_field_at(f, "vote"@, 4);
    }
    assert(find_field(f, "HD"@) == Some(JsonV::Bool(v.hd))) by {
        assert(f[5].0 == "HD"@);
        assert forall|q: int| 0 <= q < 5 implies (#[trigger] f[q]).0 != "HD"@ by {}
        lemma_find_field_at(f, "HD"@, 5);
    }
}

pub struct LogosV {
    pub vimeo: bool,
}

impl LogosV {
    /// Numeric fields fit their machine type, nested records likewise.
    pub open spec fn wf(self) -> bool {
        true
    }
}

/// Which logos the embedded player shows.
#[derive(Debug, Clone, PartialEq)]
pub struct Logos {
    pub vimeo: bool,
}

impl View for Logos {
    type V = LogosV;

    open spec fn view(&self) -> LogosV {
        LogosV {
            vimeo: self.vimeo,
        }
    }
}

impl JsonRecord for Logos {
    open spec fn to_jsonv_spec(vv: LogosV) -> JsonV {
        JsonV::Obj(
            seq![
                ("vimeo"@, JsonV::Bool(vv.vimeo)),
            ],
        )
    }

    open spec fn of_jsonv_spec(j: JsonV) -> Option<LogosV> {
        match j {
            JsonV::Obj(f) => {
                let vimeo = as_bool(find_field(f, "vimeo"@));
                if vimeo is Some {
                    Some(
                        LogosV {
                            vimeo: vimeo->0,
                        },
                    )
                } else {
                    None
                }
            },
            _ => None,
        }
    }

    fn to_json(&self) -> (r: Json)
        ensures
            r@ == Self::to_jsonv_spec(self@),
    {
        let mut f: Vec<(String, Json)> = Vec::new();
        let p = ("vimeo".to_owned(), Json::Bool(self.vimeo));
        proof {
            lemma_views_of_fields_push(f@, p);
        }
        f.push(p);
        proof {
            assert(views_of_fields(f@) =~= seq![
                ("vimeo"@, JsonV::Bool(self@.vimeo)),
            ]);
        }
        Json::Obj(f)
    }

    fn from_json(j: &Json) -> (r: Option<Logos>)
        ensures
            match r {
                Some(x) => Self::of_jsonv_spec(j@) == Some(x@),
                None => Self::of_jsonv_spec(j@) is None,
            },
    {
        let fields = match j {
            Json::Obj(f) => f,
            _ => {
                return None;
            },
        };
        let vimeo = match get_bool(fields, "vimeo") {
            Some(v) => v,
            None => {
                return None;
            },
        };
        Some(Logos { vimeo })
    }
}

/// The record decodes back from its own encoding, field for field.
pub proof fn lemma_logos_roundtrip(v: LogosV)
    requires
        v.wf(),
    ensures
        Logos::of_jsonv_spec(Logos::to_jsonv_spec(v)) == Some(v),
{
    reveal_strlit("vimeo");
    assert("vimeo"@.len() == 5);
    let f = seq![
        ("vimeo"@, JsonV::Bool(v.vimeo)),
    ];
    assert(find_field(f, "vimeo"@) == Some(JsonV::Bool(v.vimeo))) by {
        assert(f[0].0 == "vimeo"@);
        assert forall|q: int| 0 <= q < 0 implies (#[trigger] f[q]).0 != "vimeo"@ by {}
        lemma_find_field_at(f, "vimeo"@, 0);
    }
}

pub struct EmbedSettingsV {
    pub buttons: Option<ButtonsV>,
    pub logos: LogosV,
    pub outro: Seq<char>,
    pub portrait: Seq<char>,
    pub title: Seq<char>,
    pub byline: Seq<char>,
    pub badge: bool,
    pub byline_badge: bool,
    pub collections_button: bool,
    pub playbar: bool,
    pub volume: bool,
    pub fullscreen_button: bool,
    pub scaling_button: bool,
    pub autoplay: bool,
    pub autopause: bool,
    pub looping: bool,
    pub color: Seq<char>,
    pub link: bool,
    pub overlay_email_capture: int,
    pub overlay_email_capture_text: Seq<char>,
    pub overlay_email_capture_confirmation: Seq<char>,
}

impl EmbedSettingsV {
    /// Numeric fields fit their machine type, nested records likewise.
    pub open spec fn wf(self) -> bool {
        &&& (self.buttons matches Some(x) ==> x.wf())
        &&& self.logos.wf()
        &&& i32::MIN <= self.overlay_email_capture <= i32::MAX
    }
}

/// How the embedded player behaves.
#[derive(Debug, Clone, PartialEq)]
pub struct EmbedSettings {
    pub buttons: Option<Buttons>,
    pub logos: Logos,
    pub outro: String,
    pub portrait: String,
    pub title: String,
    pub byline: String,
    pub badge: bool,
    pub byline_badge: bool,
    pub collections_button: bool,
    pub playbar: bool,
    pub volume: bool,
    pub fullscreen_button: bool,
    pub scaling_button: bool,
    pub autoplay: bool,
    pub autopause: bool,
    pub looping: bool,
    pub color: String,
    pub link: bool,
    pub overlay_email_capture: i32,
    pub overlay_email_capture_text: String,
    pub overlay_email_capture_confirmation: String,
}

impl View for EmbedSettings {
    type V = EmbedSettingsV;

    open spec fn view(&self) -> EmbedSettingsV {
        EmbedSettingsV {
            buttons: opt_view(self.buttons),
            logos: self.logos@,
            outro: self.outro@,
            portrait: self.portrait@,
            title: self.title@,
            byline: self.byline@,
            badge: self.badge,
            byline_badge: self.byline_badge,
            collections_button: self.collections_button,
            playbar: self.playbar,
            volume: self.volume,
            fullscreen_button: self.fullscreen_button,
            scaling_button: self.scaling_button,
            autoplay: self.autoplay,
            autopause: self.autopause,
            looping: self.looping,
            color: self.color@,
            link: self.link,
            overlay_email_capture: self.overlay_email_capture as int,
            overlay_email_capture_text: self.overlay_email_capture_text@,
            overlay_email_capture_confirmation: self.overlay_email_capture_confirmation@,
        }
    }
}

impl JsonRecord for EmbedSettings {
    open spec fn to_jsonv_spec(vv: EmbedSettingsV) -> JsonV {
        JsonV::Obj(
            seq![
                ("buttons"@, opt_rec_jsonv::<Buttons>(vv.buttons)),
                ("logos"@, Logos::to_jsonv_spec(vv.logos)),
                ("outro"@, JsonV::Str(vv.outro)),
                ("portrait"@, JsonV::Str(vv.portrait)),
                ("title"@, JsonV::Str(vv.title)),
                ("byline"@, JsonV::Str(vv.byline)),
                ("badge"@, JsonV::Bool(vv.badge)),
                ("byline_badge"@, JsonV::Bool(vv.byline_badge)),
                ("collections_button"@, JsonV::Bool(vv.collections_button)),
                ("playbar"@, JsonV::Bool(vv.playbar)),
                ("volume"@, JsonV::Bool(vv.volume)),
                ("fullscreen_button"@, JsonV::Bool(vv.fullscreen_button)),
                ("scaling_button"@, JsonV::Bool(vv.scaling_button)),
                ("autoplay"@, JsonV::Bool(vv.autoplay)),
                ("autopause"@, JsonV::Bool(vv.autopause)),
                ("loop"@, JsonV::Bool(vv.looping)),
                ("color"@, JsonV::Str(vv.color)),
                ("link"@, JsonV::Bool(vv.link)),
                ("overlay_email_capture"@, JsonV::Int(vv.overlay_email_capture)),
                ("overlay_email_capture_text"@, JsonV::Str(vv.overlay_email_capture_text)),
                ("overlay_email_capture_confirmation"@, JsonV::Str(vv.overlay_email_capture_confirmation)),
            ],
        )
    }

    open spec fn of_jsonv_spec(j: JsonV) -> Option<EmbedSettingsV> {
        match j {
            JsonV::Obj(f) => {
                let buttons = opt_rec_of_field::<Buttons>(f, "buttons"@);
                let logos = rec_of_field::<Logos>(f, "logos"@);
                let outro = as_str(find_field(f, "outro"@));
                let portrait = as_str(find_field(f, "portrait"@));
                let title = as_str(find_field(f, "title"@));
                let byline = as_str(find_field(f, "byline"@));
                let badge = as_bool(find_field(f, "badge"@));
                let byline_badge = as_bool(find_field(f, "byline_badge"@));
                let collections_button = as_bool(find_field(f, "collections_button"@));
                let playbar = as_bool(find_field(f, "playbar"@));
                let volume = as_bool(find_field(f, "volume"@));
                let fullscreen_button = as_bool(find_field(f, "fullscreen_button"@));
                let scaling_button = as_bool(find_field(f, "scaling_button"@));
                let autoplay = as_bool(find_field(f, "autoplay"@));
                let autopause = as_bool(find_field(f, "autopause"@));
                let looping = as_bool(find_field(f, "loop"@));
                let color = as_str(find_field(f, "color"@));
                let link = as_bool(find_field(f, "link"@));
                let overlay_email_capture = as_int(find_field(f, "overlay_email_capture"@));
                let overlay_email_capture_text = as_str(find_field(f, "overlay_email_capture_text"@));
                let overlay_email_capture_confirmation = as_str(find_field(f, "overlay_email_capture_confirmation"@));
                if buttons is Some && logos is Some && outro is Some && portrait is Some && title is Some && byline is Some && badge is Some && byline_badge is Some && collections_button is Some && playbar is Some && volume is Some && fullscreen_button is Some && scaling_button is Some && autoplay is Some && autopause is Some && looping is Some && color is Some && link is Some && overlay_email_capture is Some && i32::MIN <= overlay_email_capture->0 <= i32::MAX && overlay_email_capture_text is Some && overlay_email_capture_confirmation is Some {
                    Some(
                        EmbedSettingsV {
                            buttons: buttons->0,
                            logos: logos->0,
                            outro: outro->0,
                            portrait: portrait->0,
                            title: title->0,
                            byline: byline->0,
                            badge: badge->0,
                            byline_badge: byline_badge->0,
                            collections_button: collections_button->0,
                            playbar: playbar->0,
                            volume: volume->0,
                            fullscreen_button: fullscreen_button->0,
                            scaling_button: scaling_button->0,
                            autoplay: autoplay->0,
                            autopause: autopause->0,
                            looping: looping->0,
                            color: color->0,
                            link: link->0,
                            overlay_email_capture: overlay_email_capture->0,
                            overlay_email_capture_text: overlay_email_capture_text->0,
                            overlay_email_capture_confirmation: overlay_email_capture_confirmation->0,
                        },
                    )
                } else {
                    None
                }
            },
            _ => None,
        }
    }

    fn to_json(&self) -> (r: Json)
        ensures
            r@ == Self::to_jsonv_spec(self@),
    {
        let mut f: Vec<(String, Json)> = Vec::new();
        let p = ("buttons".to_owned(), opt_rec_to_json::<Buttons>(&self.buttons));
        proof {
            lemma_views_of_fields_push(f@, p);
        }
        f.push(p);
        let p = ("logos".to_owned(), self.logos.to_json());
        proof {
            lemma_views_of_fields_push(f@, p);
        }
        f.push(p);
        let p = ("outro".to_owned(), Json::Str(self.outro.clone()));
        proof {
            lemma_views_of_fields_push(f@, p);
        }
        f.push(p);
        let p = ("portrait".to_owned(), Json::Str(self.portrait.clone()));
        proof {
            lemma_views_of_fields_push(f@, p);
        }
        f.push(p);
        let p = ("title".to_owned(), Json::Str(self.title.clone()));
        proof {
            lemma_views_of_fields_push(f@, p);
        }
        f.push(p);
        let p = ("byline".to_owned(), Json::Str(self.byline.clone()));
        proof {
            lemma_views_of_fields_push(f@, p);
        }
        f.push(p);
        let p = ("badge".to_owned(), Json::Bool(self.badge));
        proof {
            lemma_views_of_fields_push(f@, p);
        }
        f.push(p);
        let p = ("byline_badge".to_owned(), Json::Bool(self.byline_badge));
        proof {
            lemma_views_of_fields_push(f@, p);
        }
        f.push(p);
        let p = ("collections_button".to_owned(), Json::Bool(self.collections_button));
        proof {
            lemma_views_of_fields_push(f@, p);
        }
        f.push(p);
        let p = ("playbar".to_owned(), Json::Bool(self.playbar));
        proof {
            lemma_views_of_fields_push(f@, p);
        }
        f.push(p);
        let p = ("volume".to_owned(), Json::Bool(self.volume));
        proof {
            lemma_views_of_fields_push(f@, p);
        }
        f.push(p);
        let p = ("fullscreen_button".to_owned(), Json::Bool(self.fullscreen_button));
        proof {
            lemma_views_of_fields_push(f@, p);
        }
        f.push(p);
        let p = ("scaling_button".to_owned(), Json::Bool(self.scaling_button));
        proof {
            lemma_views_of_fields_push(f@, p);
        }
        f.push(p);
        let p = ("autoplay".to_owned(), Json::Bool(self.autoplay));
        proof {
            lemma_views_of_fields_push(f@, p);
        }
        f.push(p);
        let p = ("autopause".to_owned(), Json::Bool(self.autopause));
        proof {
            lemma_views_of_fields_push(f@, p);
        }
        f.push(p);
        let p = ("loop".to_owned(), Json::Bool(self.looping));
        proof {
            lemma_views_of_fields_push(f@, p);
        }
        f.push(p);
        let p = ("color".to_owned(), Json::Str(self.color.clone()));
        proof {
            lemma_views_of_fields_push(f@, p);
        }
        f.push(p);
        let p = ("link".to_owned(), Json::Bool(self.link));
        proof {
            lemma_views_of_fields_push(f@, p);
        }
        f.push(p);
        let p = ("overlay_email_capture".to_owned(), Json::Int(self.overlay_email_capture as i64));
        proof {
            lemma_views_of_fields_push(f@, p);
        }
        f.push(p);
        let p = ("overlay_email_capture_text".to_owned(), Json::Str(self.overlay_email_capture_text.clone()));
        proof {
            lemma_views_of_fields_push(f@, p);
        }
        f.push(p);
        let p = ("overlay_email_capture_confirmation".to_owned(), Json::Str(self.overlay_email_capture_confirmation.clone()));
        proof {
            lemma_views_of_fields_push(f@, p);
        }
        f.push(p);
        proof {
            assert(views_of_fields(f@) =~= seq![
                ("buttons"@, opt_rec_jsonv::<Buttons>(self@.buttons)),
                ("logos"@, Logos::to_jsonv_spec(self@.logos)),
                ("outro"@, JsonV::Str(self@.outro)),
                ("portrait"@, JsonV::Str(self@.portrait)),
                ("title"@, JsonV::Str(self@.title)),
                ("byline"@, JsonV::Str(self@.byline)),
                ("badge"@, JsonV::Bool(self@.badge)),
                ("byline_badge"@, JsonV::Bool(self@.byline_badge)),
                ("collections_button"@, JsonV::Bool(self@.collections_button)),
                ("playbar"@, JsonV::Bool(self@.playbar)),
                ("volume"@, JsonV::Bool(self@.volume)),
                ("fullscreen_button"@, JsonV::Bool(self@.fullscreen_button)),
                ("scaling_button"@, JsonV::Bool(self@.scaling_button)),
                ("autoplay"@, JsonV::Bool(self@.autoplay)),
                ("autopause"@, JsonV::Bool(self@.autopause)),
                ("loop"@, JsonV::Bool(self@.looping)),
                ("color"@, JsonV::Str(self@.color)),
                ("link"@, JsonV::Bool(self@.link)),
                ("overlay_email_capture"@, JsonV::Int(self@.overlay_email_capture)),
                ("overlay_email_capture_text"@, JsonV::Str(self@.overlay_email_capture_text)),
                ("overlay_email_capture_confirmation"@, JsonV::Str(self@.overlay_email_capture_confirmation)),
            ]);
        }
        Json::Obj(f)
    }

    fn from_json(j: &Json) -> (r: Option<EmbedSettings>)
        ensures
            match r {
                Some(x) => Self::of_jsonv_spec(j@) == Some(x@),
                None => Self::of_jsonv_spec(j@) is None,
            },
    {
        let fields = match j {
            Json::Obj(f) => f,
            _ => {
                return None;
            },
        };
        let buttons = match get_opt_rec::<Buttons>(fields, "buttons") {
            Some(v) => v,
            None => {
                return None;
            },
        };
        let logos = match get_rec::<Logos>(fields, "logos") {
            Some(v) => v,
            None => {
                return None;
            },
        };
        let outro = match get_str(fields, "outro") {
            Some(v) => v,
            None => {
                return None;
            },
        };
        let portrait = match get_str(fields, "portrait") {
            Some(v) => v,
            None => {
                return None;
            },
        };
        let title = match get_str(fields, "title") {
            Some(v) => v,
            None => {
                return None;
            },
        };
        let byline = match get_str(fields, "byline") {
            Some(v) => v,
            None => {
                return None;
            },
        };
        let badge = match get_bool(fields, "badge") {
            Some(v) => v,
            None => {
                return None;
            },
        };
        let byline_badge = match get_bool(fields, "byline_badge") {
            Some(v) => v,
            None => {
                return None;
            },
        };
        let collections_button = match get_bool(fields, "collections_button") {
            Some(v) => v,
            None => {
                return None;
            },
        };
        let playbar = match get_bool(fields, "playbar") {
            Some(v) => v,
            None => {
                return None;
            },
        };
        let volume = match get_bool(fields, "volume") {
            Some(v) => v,
            None => {
                return None;
            },
        };
        let fullscreen_button = match get_bool(fields, "fullscreen_button") {
            Some(v) => v,
            None => {
                return None;
            },
        };
        let scaling_button = match get_bool(fields, "scaling_button") {
            Some(v) => v,
            None => {
                return None;
            },
        };
        let autoplay = match get_bool(fields, "autoplay") {
            Some(v) => v,
            None => {
                return None;
            },
        };
        let autopause = match get_bool(fields, "autopause") {
            Some(v) => v,
            None => {
                return None;
            },
        };
        let looping = match get_bool(fields, "loop") {
            Some(v) => v,
            None => {
                return None;
            },
        };
        let color = match get_str(fields, "color") {
            Some(v) => v,
            None => {
                return None;
            },
        };
        let link = match get_bool(fields, "link") {
            Some(v) => v,
            None => {
                return None;
            },
        };
        let overlay_email_capture = match get_i32(fields, "overlay_email_capture") {
            Some(v) => v,
            None => {
                return None;
            },
        };
        let overlay_email_capture_text = match get_str(fields, "overlay_email_capture_text") {
            Some(v) => v,
            None => {
                return None;
            },
        };
        let overlay_email_capture_confirmation = match get_str(fields, "overlay_email_capture_confirmation") {
            Some(v) => v,
            None => {
                return None;
            },
        };
        Some(EmbedSettings { buttons, logos, outro, portrait, title, byline, badge, byline_badge, collections_button, playbar, volume, fullscreen_button, scaling_button, autoplay, autopause, looping, color, link, overlay_email_capture, overlay_email_capture_text, overlay_email_capture_confirmation })
    }
}

/// The record decodes back from its own encoding, field for field.
#[verifier::rlimit(100)]
#[verifier::spinoff_prover]
pub proof fn lemma_embed_settings_roundtrip(v: EmbedSettingsV)
    requires
        v.wf(),
    ensures
        EmbedSettings::of_jsonv_spec(EmbedSettings::to_jsonv_spec(v)) == Some(v),
{
    reveal_strlit("autopause");
    reveal_strlit("autoplay");
    reveal_strlit("badge");
    reveal_strlit("buttons");
    reveal_strlit("byline");
    reveal_strlit("byline_badge");
    reveal_strlit("collections_button");
    reveal_strlit("color");
    reveal_strlit("fullscreen_button");
    reveal_strlit("link");
    reveal_strlit("logos");
    reveal_strlit("loop");
    reveal_strlit("outro");
    reveal_strlit("overlay_email_capture");
    reveal_strlit("overlay_email_capture_confirmation");
    reveal_strlit("overlay_email_capture_text");
    reveal_strlit("playbar");
    reveal_strlit("portrait");
    reveal_strlit("scaling_button");
    reveal_strlit("title");
    reveal_strlit("volume");
    assert("autopause"@.len() == 9);
    assert("autoplay"@.len() == 8);
    assert("badge"@.len() == 5);
    assert("buttons"@.len() == 7);
    assert("byline"@.len() == 6);
    assert("byline_badge"@.len() == 12);
    assert("collections_button"@.len() == 18);
    assert("color"@.len() == 5);
    assert("fullscreen_button"@.len() == 17);
    assert("link"@.len() == 4);
    assert("logos"@.len() == 5);
    assert("loop"@.len() == 4);
    assert("outro"@.len() == 5);
    assert("overlay_email_capture"@.len() == 21);
    assert("overlay_email_capture_confirmation"@.len() == 34);
    assert("overlay_email_capture_text"@.len() == 26);
    assert("playbar"@.len() == 7);
    assert("portrait"@.len() == 8);
    assert("scaling_button"@.len() == 14);
    assert("title"@.len() == 5);
    assert("volume"@.len() == 6);
    let f = seq![
        ("buttons"@, opt_rec_jsonv::<Buttons>(v.buttons)),
        ("logos"@, Logos::to_jsonv_spec(v.logos)),
        ("outro"@, JsonV::Str(v.outro)),
        ("portrait"@, JsonV::Str(v.portrait)),
        ("title"@, JsonV::Str(v.title)),
        ("byline"@, JsonV::Str(v.byline)),
        ("badge"@, JsonV::Bool(v.badge)),
        ("byline_badge"@, JsonV::Bool(v.byline_badge)),
        ("collections_button"@, JsonV::Bool(v.collections_button)),
        ("playbar"@, JsonV::Bool(v.playbar)),
        ("volume"@, JsonV::Bool(v.volume)),
        ("fullscreen_button"@, JsonV::Bool(v.fullscreen_button)),
        ("scaling_button"@, JsonV::Bool(v.scaling_button)),
        ("autoplay"@, JsonV::Bool(v.autoplay)),
        ("autopause"@, JsonV::Bool(v.autopause)),
        ("loop"@, JsonV::Bool(v.looping)),
        ("color"@, JsonV::Str(v.color)),
        ("link"@, JsonV::Bool(v.link)),
        ("overlay_email_capture"@, JsonV::Int(v.overlay_email_capture)),
        ("overlay_email_capture_text"@, JsonV::Str(v.overlay_email_capture_text)),
        ("overlay_email_capture_confirmation"@, JsonV::Str(v.overlay_email_capture_confirmation)),
    ];
    assert("logos"@[0] == 'l' && "outro"@[0] == 'o');
    assert("logos"@ != "outro"@);
    assert("logos"@[0] == 'l' && "title"@[0] == 't');
    assert("logos"@ != "title"@);
    assert("outro"@[0] == 'o' && "title"@[0] == 't');
    assert("outro"@ != "title"@);
    assert("logos"@[0] == 'l' && "badge"@[0] == 'b');
    assert("logos"@ != "badge"@);
    assert("outro"@[0] == 'o' && "badge"@[0] == 'b');
    assert("outro"@ != "badge"@);
    assert("title"@[0] == 't' && "badge"@[0] == 'b');
    assert("title"@ != "badge"@);
    assert("buttons"@[0] == 'b' && "playbar"@[0] == 'p');
    assert("buttons"@ != "playbar"@);
    assert("byline"@[0] == 'b' && "volume"@[0] == 'v');
    assert("byline"@ != "volume"@);
    assert("portrait"@[0] == 'p' && "autoplay"@[0] == 'a');
    assert("portrait"@ != "autoplay"@);
    assert("logos"@[0] == 'l' && "color"@[0] == 'c');
    assert("logos"@ != "color"@);
    assert("outro"@[0] == 'o' && "color"@[0] == 'c');
    assert("outro"@ != "color"@);
    assert("title"@[0] == 't' && "color"@[0] == 'c');
    assert("title"@ != "color"@);
    assert("badge"@[0] == 'b' && "color"@[0] == 'c');
    assert("badge"@ != "color"@);
    assert("loop"@[1] == 'o' && "link"@[1] == 'i');
    assert("loop"@ != "link"@);
    lemma_logos_roundtrip(v.logos);
    match v.buttons {
        Some(x) => {
            lemma_buttons_roundtrip(x);
        },
        None => {},
    }
    assert(find_field(f, "buttons"@) == Some(opt_rec_jsonv::<Buttons>(v.buttons))) by {
        assert(f[0].0 == "buttons"@);
        assert forall|q: int| 0 <= q < 0 implies (#[trigger] f[q]).0 != "buttons"@ by {}
        lemma_find_field_at(f, "buttons"@, 0);
    }
    assert(find_field(f, "logos"@) == Some(Logos::to_jsonv_spec(v.logos))) by {
        assert(f[1].0 == "logos"@);
        assert forall|q: int| 0 <= q < 1 implies (#[trigger] f[q]).0 != "logos"@ by {}
        lemma_find_field_at(f, "logos"@, 1);
    }
    assert(find_field(f, "outro"@) == Some(JsonV::Str(v.outro))) by {
        assert(f[2].0 == "outro"@);
        assert forall|q: int| 0 <= q < 2 implies (#[trigger] f[q]).0 != "outro"@ by {}
        lemma_find_field_at(f, "outro"@, 2);
    }
    assert(find_field(f, "portrait"@) == Some(JsonV::Str(v.portrait))) by {
        assert(f[3].0 == "portrait"@);
        assert forall|q: int| 0 <= q < 3 implies (#[trigger] f[q]).0 != "portrait"@ by {}
        lemma_find_field_at(f, "portrait"@, 3);
    }
    assert(find_field(f, "title"@) == Some(JsonV::Str(v.title))) by {
        assert(f[4].0 == "title"@);
        assert forall|q: int| 0 <= q < 4 implies (#[trigger] f[q]).0 != "title"@ by {}
        lemma_find_field_at(f, "title"@, 4);
    }
    assert(find_field(f, "byline"@) == Some(JsonV::Str(v.byline))) by {
        assert(f[5].0 == "byline"@);
        assert forall|q: int| 0 <= q < 5 implies (#[trigger] f[q]).0 != "byline"@ by {}
        lemma_find_field_at(f, "byline"@, 5);
    }
    assert(find_field(f, "badge"@) == Some(JsonV::Bool(v.badge))) by {
        assert(f[6].0 == "badge"@);
        assert forall|q: int| 0 <= q < 6 implies (#[trigger] f[q]).0 != "badge"@ by {}
        lemma_find_field_at(f, "badge"@, 6);
    }
    assert(find_field(f, "byline_badge"@) == Some(JsonV::Bool(v.byline_badge))) by {
        assert(f[7].0 == "byline_badge"@);
        assert forall|q: int| 0 <= q < 7 implies (#[trigger] f[q]).0 != "byline_badge"@ by {}
        lemma_find_field_at(f, "byline_badge"@, 7);
    }
    assert(find_field(f, "collections_button"@) == Some(JsonV::Bool(v.collections_button))) by {
        assert(f[8].0 == "collections_button"@);
        assert forall|q: int| 0 <= q < 8 implies (#[trigger] f[q]).0 != "collections_button"@ by {}
        lemma_find_field_at(f, "collections_button"@, 8);
    }
    assert(find_field(f, "playbar"@) == Some(JsonV::Bool(v.playbar))) by {
        assert(f[9].0 == "playbar"@);
        assert forall|q: int| 0 <= q < 9 implies (#[trigger] f[q]).0 != "playbar"@ by {}
        lemma_find_field_at(f, "playbar"@, 9);
    }
    assert(find_field(f, "volume"@) == Some(JsonV::Bool(v.volume))) by {
        assert(f[10].0 == "volume"@);
        assert forall|q: int| 0 <= q < 10 implies (#[trigger] f[q]).0 != "volume"@ by {}
        lemma_find_field_at(f, "volume"@, 10);
    }
    assert(find_field(f, "fullscreen_button"@) == Some(JsonV::Bool(v.fullscreen_button))) by {
        assert(f[11].0 == "fullscreen_button"@);
        assert forall|q: int| 0 <= q < 11 implies (#[trigger] f[q]).0 != "fullscreen_button"@ by {}
        lemma_find_field_at(f, "fullscreen_button"@, 11);
    }
    assert(find_field(f, "scaling_button"@) == Some(JsonV::Bool(v.scaling_button))) by {
        assert(f[12].0 == "scaling_button"@);
        assert forall|q: int| 0 <= q < 12 implies (#[trigger] f[q]).0 != "scaling_button"@ by {}
        lemma_find_field_at(f, "scaling_button"@, 12);
    }
    assert(find_field(f, "autoplay"@) == Some(JsonV::Bool(v.autoplay))) by {
        assert(f[13].0 == "autoplay"@);
        assert forall|q: int| 0 <= q < 13 implies (#[trigger] f[q]).0 != "autoplay"@ by {}
        lemma_find_field_at(f, "autoplay"@, 13);
    }
    assert(find_field(f, "autopause"@) == Some(JsonV::Bool(v.autopause))) by {
        assert(f[14].0 == "autopause"@);
        assert forall|q: int| 0 <= q < 14 implies (#[trigger] f[q]).0 != "autopause"@ by {}
        lemma_find_field_at(f, "autopause"@, 14);
    }
    assert(find_field(f, "loop"@) == Some(JsonV::Bool(v.looping))) by {
        assert(f[15].0 == "loop"@);
        assert forall|q: int| 0 <= q < 15 implies (#[trigger] f[q]).0 != "loop"@ by {}
        lemma_find_field_at(f, "loop"@, 15);
    }
    assert(find_field(f, "color"@) == Some(JsonV::Str(v.color))) by {
        assert(f[16].0 == "color"@);
        assert forall|q: int| 0 <= q < 16 implies (#[trigger] f[q]).0 != "color"@ by {}
        lemma_find_field_at(f, "color"@, 16);
    }
    assert(find_field(f, "link"@) == Some(JsonV::Bool(v.link))) by {
        assert(f[17].0 == "link"@);
        assert forall|q: int| 0 <= q < 17 implies (#[trigger] f[q]).0 != "link"@ by {}
        lemma_find_field_at(f, "link"@, 17);
    }
    assert(find_field(f, "overlay_email_capture"@) == Some(JsonV::Int(v.overlay_email_capture))) by {
        assert(f[18].0 == "overlay_email_capture"@);
        assert forall|q: int| 0 <= q < 18 implies (#[trigger] f[q]).0 != "overlay_email_capture"@ by {}
        lemma_find_field_at(f, "overlay_email_capture"@, 18);
    }
    assert(find_field(f, "overlay_email_capture_text"@) == Some(JsonV::Str(v.overlay_email_capture_text))) by {
        assert(f[19].0 == "overlay_email_capture_text"@);
        assert forall|q: int| 0 <= q < 19 implies (#[trigger] f[q]).0 != "overlay_email_capture_text"@ by {}
        lemma_find_field_at(f, "overlay_email_capture_text"@, 19);
    }
    assert(find_field(f, "overlay_email_capture_confirmation"@) == Some(JsonV::Str(v.overlay_email_capture_confirmation))) by {
        assert(f[20].0 == "overlay_email_capture_confirmation"@);
        assert forall|q: int| 0 <= q < 20 implies (#[trigger] f[q]).0 != "overlay_email_capture_confirmation"@ by {}
        lemma_find_field_at(f, "overlay_email_capture_confirmation"@, 20);
    }
}

pub struct EmbedPresetsV {
    pub uri: Seq<char>,
    pub name: Seq<char>,
    pub settings: EmbedSettingsV,
    pub user: Option<UserV>,
}

impl EmbedPresetsV {
    /// Numeric fields fit their machine type, nested records likewise.
    pub open spec fn wf(self) -> bool {
        &&& self.settings.wf()
        &&& (self.user matches Some(x) ==> x.wf())
    }
}

/// A saved embed configuration.
#[derive(Debug, Clone, PartialEq)]
pub struct EmbedPresets {
    pub uri: String,
    pub name: String,
    pub settings: EmbedSettings,
    pub user: Option<User>,
}

impl View for EmbedPresets {
    type V = EmbedPresetsV;

    open spec fn view(&self) -> EmbedPresetsV {
        EmbedPresetsV {
            uri: self.uri@,
            name: self.name@,
            settings: self.settings@,
            user: opt_view(self.user),
        }
    }
}

impl JsonRecord for EmbedPresets {
    open spec fn to_jsonv_spec(vv: EmbedPresetsV) -> JsonV {
        JsonV::Obj(
            seq![
                ("uri"@, JsonV::Str(vv.uri)),
                ("name"@, JsonV::Str(vv.name)),
                ("settings"@, EmbedSettings::to_jsonv_spec(vv.settings)),
                ("user"@, opt_rec_jsonv::<User>(vv.user)),
            ],
        )
    }

    open spec fn of_jsonv_spec(j: JsonV) -> Option<EmbedPresetsV> {
        match j {
            JsonV::Obj(f) => {
                let uri = as_str(find_field(f, "uri"@));
                let name = as_str(find_field(f, "name"@));
                let settings = rec_of_field::<EmbedSettings>(f, "settings"@);
                let user = opt_rec_of_field::<User>(f, "user"@);
                if uri is Some && name is Some && settings is Some && user is Some {
                    Some(
                        EmbedPresetsV {
                            uri: uri->0,
                            name: name->0,
                            settings: settings->0,
                            user: user->0,
                        },
                    )
                } else {
                    None
                }
            },
            _ => None,
        }
    }

    fn to_json(&self) -> (r: Json)
        ensures
            r@ == Self::to_jsonv_spec(self@),
    {
        let mut f: Vec<(String, Json)> = Vec::new();
        let p = ("uri".to_owned(), Json::Str(self.uri.clone()));
        proof {
            lemma_views_of_fields_push(f@, p);
        }
        f.push(p);
        let p = ("name".to_owned(), Json::Str(self.name.clone()));
        proof {
            lemma_views_of_fields_push(f@, p);
        }
        f.push(p);
        let p = ("settings".to_owned(), self.settings.to_json());
        proof {
            lemma_views_of_fields_push(f@, p);
        }
        f.push(p);
        let p = ("user".to_owned(), opt_rec_to_json::<User>(&self.user));
        proof {
            lemma_views_of_fields_push(f@, p);
        }
        f.push(p);
        proof {
            assert(views_of_fields(f@) =~= seq![
                ("uri"@, JsonV::Str(self@.uri)),
                ("name"@, JsonV::Str(self@.name)),
                ("settings"@, EmbedSettings::to_jsonv_spec(self@.settings)),
                ("user"@, opt_rec_jsonv::<User>(self@.user)),
            ]);
        }
        Json::Obj(f)
    }

    fn from_json(j: &Json) -> (r: Option<EmbedPresets>)
        ensures
            match r {
                Some(x) => Self::of_jsonv_spec(j@) == Some(x@),
                None => Self::of_jsonv_spec(j@) is None,
            },
    {
        let fields = match j {
            Json::Obj(f) => f,
            _ => {
                return None;
            },
        };
        let uri = match get_str(fields, "uri") {
            Some(v) => v,
            None => {
                return None;
            },
        };
        let name = match get_str(fields, "name") {
            Some(v) => v,
            None => {
                return None;
            },
        };
        let settings = match get_rec::<EmbedSettings>(fields, "settings") {
            Some(v) => v,
            None => {
                return None;
            },
        };
        let user = match get_opt_rec::<User>(fields, "user") {
            Some(v) => v,
            None => {
                return None;
            },
        };
        Some(EmbedPresets { uri, name, settings, user })
    }
}

/// The record decodes back from its own encoding, field for field.
pub proof fn lemma_embed_presets_roundtrip(v: EmbedPresetsV)
    requires
        v.wf(),
    ensures
        EmbedPresets::of_jsonv_spec(EmbedPresets::to_jsonv_spec(v)) == Some(v),
{
    reveal_strlit("name");
    reveal_strlit("settings");
    reveal_strlit("uri");
    reveal_strlit("user");
    assert("name"@.len() == 4);
    assert("settings"@.len() == 8);
    assert("uri"@.len() == 3);
    assert("user"@.len() == 4);
    let f = seq![
        ("uri"@, JsonV::Str(v.uri)),
        ("name"@, JsonV::Str(v.name)),
        ("settings"@, EmbedSettings::to_jsonv_spec(v.settings)),
        ("user"@, opt_rec_jsonv::<User>(v.user)),
    ];
    assert("name"@[0] == 'n' && "user"@[0] == 'u');
    assert("name"@ != "user"@);
    lemma_embed_settings_roundtrip(v.settings);
    match v.user {
        Some(x) => {
            lemma_user_roundtrip(x);
        },
        None => {},
    }
    assert(find_field(f, "uri"@) == Some(JsonV::Str(v.uri))) by {
        assert(f[0].0 == "uri"@);
        assert forall|q: int| 0 <= q < 0 implies (#[trigger] f[q]).0 != "uri"@ by {}
        lemma_find_field_at(f, "uri"@, 0);
    }
    assert(find_field(f, "name"@) == Some(JsonV::Str(v.name))) by {
        assert(f[1].0 == "name"@);
        assert forall|q: int| 0 <= q < 1 implies (#[trigger] f[q]).0 != "name"@ by {}
        lemma_find_field_at(f, "name"@, 1);
    }
    assert(find_field(f, "settings"@) == Some(EmbedSettings::to_jsonv_spec(v.settings))) by {
        assert(f[2].0 == "settings"@);
        assert forall|q: int| 0 <= q < 2 implies (#[trigger] f[q]).0 != "settings"@ by {}
        lemma_find_field_at(f, "settings"@, 2);
    }
    assert(find_field(f, "user"@) == Some(opt_rec_jsonv::<User>(v.user))) by {
        assert(f[3].0 == "user"@);
        assert forall|q: int| 0 <= q < 3 implies (#[trigger] f[q]).0 != "user"@ by {}
        lemma_find_field_at(f, "user"@, 3);
    }
}

pub struct UploadV {
    pub status: Seq<char>,
    pub upload_link: Option<Seq<char>>,
    pub redirect_url: Option<Seq<char>>,
    pub link: Option<Seq<char>>,
    pub form: Option<Seq<char>>,
    pub approach: Option<Seq<char>>,
    pub size: Option<int>,
}

impl UploadV {
    /// Numeric fields fit their machine type, nested records likewise.
    pub open spec fn wf(self) -> bool {
        (self.size matches Some(n) ==> 0 <= n <= u32::MAX)
    }
}

/// The state of a video's upload.
#[derive(Debug, Clone, PartialEq)]
pub struct Upload {
    pub status: String,
    pub upload_link: Option<String>,
    pub redirect_url: Option<String>,
    pub link: Option<String>,
    pub form: Option<String>,
    pub approach: Option<String>,
    pub size: Option<u32>,
}

impl View for Upload {
    type V = UploadV;

    open spec fn view(&self) -> UploadV {
        UploadV {
            status: self.status@,
            upload_link: opt_view(self.upload_link),
            redirect_url: opt_view(self.redirect_url),
            link: opt_view(self.link),
            form: opt_view(self.form),
            approach: opt_view(self.approach),
            size: opt_u32_view(self.size),
        }
    }
}

impl JsonRecord for Upload {
    open spec fn to_jsonv_spec(vv: UploadV) -> JsonV {
        JsonV::Obj(
            seq![
                ("status"@, JsonV::Str(vv.status)),
                ("upload_link"@, opt_str_jsonv(vv.upload_link)),
                ("redirect_url"@, opt_str_jsonv(vv.redirect_url)),
                ("link"@, opt_str_jsonv(vv.link)),
                ("form"@, opt_str_jsonv(vv.form)),
                ("approach"@, opt_str_jsonv(vv.approach)),
                ("size"@, opt_int_jsonv(vv.size)),
            ],
        )
    }

    open spec fn of_jsonv_spec(j: JsonV) -> Option<UploadV> {
        match j {
            JsonV::Obj(f) => {
                let status = as_str(find_field(f, "status"@));
                let upload_link = as_opt_str(find_field(f, "upload_link"@));
                let redirect_url = as_opt_str(find_field(f, "redirect_url"@));
                let link = as_opt_str(find_field(f, "link"@));
                let form = as_opt_str(find_field(f, "form"@));
                let approach = as_opt_str(find_field(f, "approach"@));
                let size = as_opt_int(find_field(f, "size"@));
                if status is Some && upload_link is Some && redirect_url is Some && link is Some && form is Some && approach is Some && size is Some && (size->0 matches Some(n) ==> 0 <= n <= u32::MAX) {
                    Some(
                        UploadV {
                            status: status->0,
                            upload_link: upload_link->0,
                            redirect_url: redirect_url->0,
                            link: link->0,
                            form: form->0,
                            approach: approach->0,
                            size: size->0,
                        },
                    )
                } else {
                    None
                }
            },
            _ => None,
        }
    }

    fn to_json(&self) -> (r: Json)
        ensures
            r@ == Self::to_jsonv_spec(self@),
    {
        let mut f: Vec<(String, Json)> = Vec::new();
        let p = ("status".to_owned(), Json::Str(self.status.clone()));
        proof {
            lemma_views_of_fields_push(f@, p);
        }
        f.push(p);
        let p = ("upload_link".to_owned(), opt_str_to_json(&self.upload_link));
        proof {
            lemma_views_of_fields_push(f@, p);
        }
        f.push(p);
        let p = ("redirect_url".to_owned(), opt_str_to_json(&self.redirect_url));
        proof {
            lemma_views_of_fields_push(f@, p);
        }
        f.push(p);
        let p = ("link".to_owned(), opt_str_to_json(&self.link));
        proof {
            lemma_views_of_fields_push(f@, p);
        }
        f.push(p);
        let p = ("form".to_owned(), opt_str_to_json(&self.form));
        proof {
            lemma_views_of_fields_push(f@, p);
        }
        f.push(p);
        let p = ("approach".to_owned(), opt_str_to_json(&self.approach));
        proof {
            lemma_views_of_fields_push(f@, p);
        }
        f.push(p);
        let p = ("size".to_owned(), opt_u32_to_json(&self.size));
        proof {
            lemma_views_of_fields_push(f@, p);
        }
        f.push(p);
        proof {
            assert(views_of_fields(f@) =~= seq![
                ("status"@, JsonV::Str(self@.status)),
                ("upload_link"@, opt_str_jsonv(self@.upload_link)),
                ("redirect_url"@, opt_str_jsonv(self@.redirect_url)),
                ("link"@, opt_str_jsonv(self@.link)),
                ("form"@, opt_str_jsonv(self@.form)),
                ("approach"@, opt_str_jsonv(self@.approach)),
                ("size"@, opt_int_jsonv(self@.size)),
            ]);
        }
        Json::Obj(f)
    }

    fn from_json(j: &Json) -> (r: Option<Upload>)
        ensures
            match r {
                Some(x) => Self::of_jsonv_spec(j@) == Some(x@),
                None => Self::of_jsonv_spec(j@) is None,
            },
    {
        let fields = match j {
            Json::Obj(f) => f,
            _ => {
                return None;
            },
        };
        let status = match get_str(fields, "status") {
            Some(v) => v,
            None => {
                return None;
            },
        };
        let upload_link = match get_opt_str(fields, "upload_link") {
            Some(v) => v,
            None => {
                return None;
            },
        };
        let redirect_url = match get_opt_str(fields, "redirect_url") {
            Some(v) => v,
            None => {
                return None;
            },
        };
        let link = match get_opt_str(fields, "link") {
            Some(v) => v,
            None => {
                return None;
            },
        };
        let form = match get_opt_str(fields, "form") {
            Some(v) => v,
            None => {
                return None;
            },
        };
        let approach = match get_opt_str(fields, "approach") {
            Some(v) => v,
            None => {
                return None;
            },
        };
        let size = match get_opt_u32(fields, "size") {
            Some(v) => v,
            None => {
                return None;
            },
        };
        Some(Upload { status, upload_link, redirect_url, link, form, approach, size })
    }
}

/// The record decodes back from its own encoding, field for field.
pub proof fn lemma_upload_roundtrip(v: UploadV)
    requires
        v.wf(),
    ensures
        Upload::of_jsonv_spec(Upload::to_jsonv_spec(v)) == Some(v),
{
    reveal_strlit("approach");
    reveal_strlit("form");
    reveal_strlit("link");
    reveal_strlit("redirect_url");
    reveal_strlit("size");
    reveal_strlit("status");
    reveal_strlit("upload_link");
    assert("approach"@.len() == 8);
    assert("form"@.len() == 4);
    assert("link"@.len() == 4);
    assert("redirect_url"@.len() == 12);
    assert("size"@.len() == 4);
    assert("status"@.len() == 6);
    assert("upload_link"@.len() == 11);
    let f = seq![
        ("status"@, JsonV::Str(v.status)),
        ("upload_link"@, opt_str_jsonv(v.upload_link)),
        ("redirect_url"@, opt_str_jsonv(v.redirect_url)),
        ("link"@, opt_str_jsonv(v.link)),
        ("form"@, opt_str_jsonv(v.form)),
        ("approach"@, opt_str_jsonv(v.approach)),
        ("size"@, opt_int_jsonv(v.size)),
    ];
    assert("link"@[0] == 'l' && "form"@[0] == 'f');
    assert("link"@ != "form"@);
    assert("link"@[0] == 'l' && "size"@[0] == 's');
    assert("link"@ != "size"@);
    assert("form"@[0] == 'f' && "size"@[0] == 's');
    assert("form"@ != "size"@);
    assert(find_field(f, "status"@) == Some(JsonV::Str(v.status))) by {
        assert(f[0].0 == "status"@);
        assert forall|q: int| 0 <= q < 0 implies (#[trigger] f[q]).0 != "status"@ by {}
        lemma_find_field_at(f, "status"@, 0);
    }
    assert(find_field(f, "upload_link"@) == Some(opt_str_jsonv(v.upload_link))) by {
        assert(f[1].0 == "upload_link"@);
        assert forall|q: int| 0 <= q < 1 implies (#[trigger] f[q]).0 != "upload_link"@ by {}
        lemma_find_field_at(f, "upload_link"@, 1);
    }
    assert(find_field(f, "redirect_url"@) == Some(opt_str_jsonv(v.redirect_url))) by {
        assert(f[2].0 == "redirect_url"@);
        assert forall|q: int| 0 <= q < 2 implies (#[trigger] f[q]).0 != "redirect_url"@ by {}
        lemma_find_field_at(f, "redirect_url"@, 2);
    }
    assert(find_field(f, "link"@) == Some(opt_str_jsonv(v.link))) by {
        assert(f[3].0 == "link"@);
        assert forall|q: int| 0 <= q < 3 implies (#[trigger] f[q]).0 != "link"@ by {}
        lemma_find_field_at(f, "link"@, 3);
    }
    assert(find_field(f, "form"@) == Some(opt_str_jsonv(v.form))) by {
        assert(f[4].0 == "form"@);
        assert forall|q: int| 0 <= q < 4 implies (#[trigger] f[q]).0 != "form"@ by {}
        lemma_find_field_at(f, "form"@, 4);
    }
    assert(find_field(f, "approach"@) == Some(opt_str_jsonv(v.approach))) by {
        assert(f[5].0 == "approach"@);
        assert forall|q: int| 0 <= q < 5 implies (#[trigger] f[q]).0 != "approach"@ by {}
        lemma_find_field_at(f, "approach"@, 5);
    }
    assert(find_field(f, "size"@) == Some(opt_int_jsonv(v.size))) by {
        assert(f[6].0 == "size"@);
        assert forall|q: int| 0 <= q < 6 implies (#[trigger] f[q]).0 != "size"@ by {}
        lemma_find_field_at(f, "size"@, 6);
    }
}

pub struct TranscodeV {
    pub status: Seq<char>,
}

impl TranscodeV {
    /// Numeric fields fit their machine type, nested records likewise.
    pub open spec fn wf(self) -> bool {
        true
    }
}

/// The state of a video's transcode.
#[derive(Debug, Clone, PartialEq)]
pub struct Transcode {
    pub status: String,
}

impl View for Transcode {
    type V = TranscodeV;

    open spec fn view(&self) -> TranscodeV {
        TranscodeV {
            status: self.status@,
        }
    }
}

impl JsonRecord for Transcode {
    open spec fn to_jsonv_spec(vv: TranscodeV) -> JsonV {
        JsonV::Obj(
            seq![
                ("status"@, JsonV::Str(vv.status)),
            ],
        )
    }

    open spec fn of_jsonv_spec(j: JsonV) -> Option<TranscodeV> {
        match j {
            JsonV::Obj(f) => {
                let status = as_str(find_field(f, "status"@));
                if status is Some {
                    Some(
                        TranscodeV {
                            status: status->0,
                        },
                    )
                } else {
                    None
                }
            },
            _ => None,
        }
    }

    fn to_json(&self) -> (r: Json)
        ensures
            r@ == Self::to_jsonv_spec(self@),
    {
        let mut f: Vec<(String, Json)> = Vec::new();
        let p = ("status".to_owned(), Json::Str(self.status.clone()));
        proof {
            lemma_views_of_fields_push(f@, p);
        }
        f.push(p);
        proof {
            assert(views_of_fields(f@) =~= seq![
                ("status"@, JsonV::Str(self@.status)),
            ]);
        }
        Json::Obj(f)
    }

    fn from_json(j: &Json) -> (r: Option<Transcode>)
        ensures
            match r {
                Some(x) => Self::of_jsonv_spec(j@) == Some(x@),
                None => Self::of_jsonv_spec(j@) is None,
            },
    {
        let fields = match j {
            Json::Obj(f) => f,
            _ => {
                return None;
            },
        };
        let status = match get_str(fields, "status") {
            Some(v) => v,
            None => {
                return None;
            },
        };
        Some(Transcode { status })
    }
}

/// The record decodes back from its own encoding, field for field.
pub proof fn lemma_transcode_roundtrip(v: TranscodeV)
    requires
        v.wf(),
    ensures
        Transcode::of_jsonv_spec(Transcode::to_jsonv_spec(v)) == Some(v),
{
    reveal_strlit("status");
    assert("status"@.len() == 6);
    let f = seq![
        ("status"@, JsonV::Str(v.status)),
    ];
    assert(find_field(f, "status"@) == Some(JsonV::Str(v.status))) by {
        assert(f[0].0 == "status"@);
        assert forall|q: int| 0 <= q < 0 implies (#[trigger] f[q]).0 != "status"@ by {}
        lemma_find_field_at(f, "status"@, 0);
    }
}

pub struct PrivacyV {
    pub view: Seq<char>,
    pub comments: Seq<char>,
    pub embed: Seq<char>,
    pub download: bool,
    pub add: bool,
    pub join: Option<Seq<char>>,
    pub videos: Option<Seq<char>>,
    pub forums: Option<Seq<char>>,
    pub invite: Option<Seq<char>>,
}

impl PrivacyV {
    /// Numeric fields fit their machine type, nested records likewise.
    pub open spec fn wf(self) -> bool {
        true
    }
}

/// Who may see, comment on, embed or download a video.
#[derive(Debug, Clone, PartialEq)]
pub struct Privacy {
    pub view: String,
    pub comments: String,
    pub embed: String,
    pub download: bool,
    pub add: bool,
    pub join: Option<String>,
    pub videos: Option<String>,
    pub forums: Option<String>,
    pub invite: Option<String>,
}

impl View for Privacy {
    type V = PrivacyV;

    open spec fn view(&self) -> PrivacyV {
        PrivacyV {
            view: self.view@,
            comments: self.comments@,
            embed: self.embed@,
            download: self.download,
            add: self.add,
            join: opt_view(self.join),
            videos: opt_view(self.videos),
            forums: opt_view(self.forums),
            invite: opt_view(self.invite),
        }
    }
}

impl JsonRecord for Privacy {
    open spec fn to_jsonv_spec(vv: PrivacyV) -> JsonV {
        JsonV::Obj(
            seq![
                ("view"@, JsonV::Str(vv.view)),
                ("comments"@, JsonV::Str(vv.comments)),
                ("embed"@, JsonV::Str(vv.embed)),
                ("download"@, JsonV::Bool(vv.download)),
                ("add"@, JsonV::Bool(vv.add)),
                ("join"@, opt_str_jsonv(vv.join)),
                ("videos"@, opt_str_jsonv(vv.videos)),
                ("forums"@, opt_str_jsonv(vv.forums)),
                ("invite"@, opt_str_jsonv(vv.invite)),
            ],
        )
    }

    open spec fn of_jsonv_spec(j: JsonV) -> Option<PrivacyV> {
        match j {
            JsonV::Obj(f) => {
                let view = as_str(find_field(f, "view"@));
                let comments = as_str(find_field(f, "comments"@));
                let embed = as_str(find_field(f, "embed"@));
                let download = as_bool(find_field(f, "download"@));
                let add = as_bool(find_field(f, "add"@));
                let join = as_opt_str(find_field(f, "join"@));
                let videos = as_opt_str(find_field(f, "videos"@));
                let forums = as_opt_str(find_field(f, "forums"@));
                let invite = as_opt_str(find_field(f, "invite"@));
                if view is Some && comments is Some && embed is Some && download is Some && add is Some && join is Some && videos is Some && forums is Some && invite is Some {
                    Some(
                        PrivacyV {
                            view: view->0,
                            comments: comments->0,
                            embed: embed->0,
                            download: download->0,
                            add: add->0,
                            join: join->0,
                            videos: videos->0,
                            forums: forums->0,
                            invite: invite->0,
                        },
                    )
                } else {
                    None
                }
            },
            _ => None,
        }
    }

    fn to_json(&self) -> (r: Json)
        ensures
            r@ == Self::to_jsonv_spec(self@),
    {
        let mut f: Vec<(String, Json)> = Vec::new();
        let p = ("view".to_owned(), Json::Str(self.view.clone()));
        proof {
            lemma_views_of_fields_push(f@, p);
        }
        f.push(p);
        let p = ("comments".to_owned(), Json::Str(self.comments.clone()));
        proof {
            lemma_views_of_fields_push(f@, p);
        }
        f.push(p);
        let p = ("embed".to_owned(), Json::Str(self.embed.clone()));
        proof {
            lemma_views_of_fields_push(f@, p);
        }
        f.push(p);
        let p = ("download".to_owned(), Json::Bool(self.download));
        proof {
            lemma_views_of_fields_push(f@, p);
        }
        f.push(p);
        let p = ("add".to_owned(), Json::Bool(self.add));
        proof {
            lemma_views_of_fields_push(f@, p);
        }
        f.push(p);
        let p = ("join".to_owned(), opt_str_to_json(&self.join));
        proof {
            lemma_views_of_fields_push(f@, p);
        }
        f.push(p);
        let p = ("videos".to_owned(), opt_str_to_json(&self.videos));
        proof {
            lemma_views_of_fields_push(f@, p);
        }
        f.push(p);
        let p = ("forums".to_owned(), opt_str_to_json(&self.forums));
        proof {
            lemma_views_of_fields_push(f@, p);
        }
        f.push(p);
        let p = ("invite".to_owned(), opt_str_to_json(&self.invite));
        proof {
            lemma_views_of_fields_push(f@, p);
        }
        f.push(p);
        proof {
            assert(views_of_fields(f@) =~= seq![
                ("view"@, JsonV::Str(self@.view)),
                ("comments"@, JsonV::Str(self@.comments)),
                ("embed"@, JsonV::Str(self@.embed)),
                ("download"@, JsonV::Bool(self@.download)),
                ("add"@, JsonV::Bool(self@.add)),
                ("join"@, opt_str_jsonv(self@.join)),
                ("videos"@, opt_str_jsonv(self@.videos)),
                ("forums"@, opt_str_jsonv(self@.forums)),
                ("invite"@, opt_str_jsonv(self@.invite)),
            ]);
        }
        Json::Obj(f)
    }

    fn from_json(j: &Json) -> (r: Option<Privacy>)
        ensures
            match r {
                Some(x) => Self::of_jsonv_spec(j@) == Some(x@),
                None => Self::of_jsonv_spec(j@) is None,
            },
    {
        let fields = match j {
            Json::Obj(f) => f,
            _ => {
                return None;
            },
        };
        let view = match get_str(fields, "view") {
            Some(v) => v,
            None => {
                return None;
            },
        };
        let comments = match get_str(fields, "comments") {
            Some(v) => v,
            None => {
                return None;
            },
        };
        let embed = match get_str(fields, "embed") {
            Some(v) => v,
            None => {
                return None;
            },
        };
        let download = match get_bool(fields, "download") {
            Some(v) => v,
            None => {
                return None;
            },
        };
        let add = match get_bool(fields, "add") {
            Some(v) => v,
            None => {
                return None;
            },
        };
        let join = match get_opt_str(fields, "join") {
            Some(v) => v,
            None => {
                return None;
            },
        };
        let videos = match get_opt_str(fields, "videos") {
            Some(v) => v,
            None => {
                return None;
            },
        };
        let forums = match get_opt_str(fields, "forums") {
            Some(v) => v,
            None => {
                return None;
            },
        };
        let invite = match get_opt_str(fields, "invite") {
            Some(v) => v,
            None => {
                return None;
            },
        };
        Some(Privacy { view, comments, embed, download, add, join, videos, forums, invite })
    }
}

/// The record decodes back from its own encoding, field for field.
pub proof fn lemma_privacy_roundtrip(v: PrivacyV)
    requires
        v.wf(),
    ensures
        Privacy::of_jsonv_spec(Privacy::to_jsonv_spec(v)) == Some(v),
{
    reveal_strlit("add");
    reveal_strlit("comments");
    reveal_strlit("download");
    reveal_strlit("embed");
    reveal_strlit("forums");
    reveal_strlit("invite");
    reveal_strlit("join");
    reveal_strlit("videos");
    reveal_strlit("view");
    assert("add"@.len() == 3);
    assert("comments"@.len() == 8);
    assert("download"@.len() == 8);
    assert("embed"@.len() == 5);
    assert("forums"@.len() == 6);
    assert("invite"@.len() == 6);
    assert("join"@.len() == 4);
    assert("videos"@.len() == 6);
    assert("view"@.len() == 4);
    let f = seq![
        ("view"@, JsonV::Str(v.view)),
        ("comments"@, JsonV::Str(v.comments)),
        ("embed"@, JsonV::Str(v.embed)),
        ("download"@, JsonV::Bool(v.download)),
        ("add"@, JsonV::Bool(v.add)),
        ("join"@, opt_str_jsonv(v.join)),
        ("videos"@, opt_str_jsonv(v.videos)),
        ("forums"@, opt_str_jsonv(v.forums)),
        ("invite"@, opt_str_jsonv(v.invite)),
    ];
    assert("comments"@[0] == 'c' && "download"@[0] == 'd');
    assert("comments"@ != "download"@);
    assert("view"@[0] == 'v' && "join"@[0] == 'j');
    assert("view"@ != "join"@);
    assert("videos"@[0] == 'v' && "forums"@[0] == 'f');
    assert("videos"@ != "forums"@);
    assert("videos"@[0] == 'v' && "invite"@[0] == 'i');
    assert("videos"@ != "invite"@);
    assert("forums"@[0] == 'f' && "invite"@[0] == 'i');
    assert("forums"@ != "invite"@);
    assert(find_field(f, "view"@) == Some(JsonV::Str(v.view))) by {
        assert(f[0].0 == "view"@);
        assert forall|q: int| 0 <= q < 0 implies (#[trigger] f[q]).0 != "view"@ by {}
        lemma_find_field_at(f, "view"@, 0);
    }
    assert(find_field(f, "comments"@) == Some(JsonV::Str(v.comments))) by {
        assert(f[1].0 == "comments"@);
        assert forall|q: int| 0 <= q < 1 implies (#[trigger] f[q]).0 != "comments"@ by {}
        lemma_find_field_at(f, "comments"@, 1);
    }
    assert(find_field(f, "embed"@) == Some(JsonV::Str(v.embed))) by {
        assert(f[2].0 == "embed"@);
        assert forall|q: int| 0 <= q < 2 implies (#[trigger] f[q]).0 != "embed"@ by {}
        lemma_find_field_at(f, "embed"@, 2);
    }
    assert(find_field(f, "download"@) == Some(JsonV::Bool(v.download))) by {
        assert(f[3].0 == "download"@);
        assert forall|q: int| 0 <= q < 3 implies (#[trigger] f[q]).0 != "download"@ by {}
        lemma_find_field_at(f, "download"@, 3);
    }
    assert(find_field(f, "add"@) == Some(JsonV::Bool(v.add))) by {
        assert(f[4].0 == "add"@);
        assert forall|q: int| 0 <= q < 4 implies (#[trigger] f[q]).0 != "add"@ by {}
        lemma_find_field_at(f, "add"@, 4);
    }
    assert(find_field(f, "join"@) == Some(opt_str_jsonv(v.join))) by {
        assert(f[5].0 == "join"@);
        assert forall|q: int| 0 <= q < 5 implies (#[trigger] f[q]).0 != "join"@ by {}
        lemma_find_field_at(f, "join"@, 5);
    }
    assert(find_field(f, "videos"@) == Some(opt_str_jsonv(v.videos))) by {
        assert(f[6].0 == "videos"@);
        assert forall|q: int| 0 <= q < 6 implies (#[trigger] f[q]).0 != "videos"@ by {}
        lemma_find_field_at(f, "videos"@, 6);
    }
    assert(find_field(f, "forums"@) == Some(opt_str_jsonv(v.forums))) by {
        assert(f[7].0 == "forums"@);
        assert forall|q: int| 0 <= q < 7 implies (#[trigger] f[q]).0 != "forums"@ by {}
        lemma_find_field_at(f, "forums"@, 7);
    }
    assert(find_field(f, "invite"@) == Some(opt_str_jsonv(v.invite))) by {
        assert(f[8].0 == "invite"@);
        assert forall|q: int| 0 <= q < 8 implies (#[trigger] f[q]).0 != "invite"@ by {}
        lemma_find_field_at(f, "invite"@, 8);
    }
}

pub struct CategoryV {
    pub uri: Seq<char>,
    pub link: Seq<char>,
    pub name: Seq<char>,
    pub top_level: bool,
    pub pictures: PicturesV,
    pub last_video_featured_time: Seq<char>,
    pub parent: SubCategoryV,
    pub subcategories: Seq<SubCategoryV>,
    pub resource_key: Seq<char>,
}

impl CategoryV {
    /// Numeric fields fit their machine type, nested records likewise.
    pub open spec fn wf(self) -> bool {
        &&& self.pictures.wf()
        &&& self.parent.wf()
        &&& (forall|i: int| 0 <= i < self.subcategories.len() ==> (#[trigger] self.subcategories[i]).wf())
    }
}

/// A category a video stands in.
#[derive(Debug, Clone, PartialEq)]
pub struct Category {
    pub uri: String,
    pub link: String,
    pub name: String,
    pub top_level: bool,
    pub pictures: Pictures,
    pub last_video_featured_time: String,
    pub parent: SubCategory,
    pub subcategories: Vec<SubCategory>,
    pub resource_key: String,
}

impl View for Category {
    type V = CategoryV;

    open spec fn view(&self) -> CategoryV {
        CategoryV {
            uri: self.uri@,
            link: self.link@,
            name: self.name@,
            top_level: self.top_level,
            pictures: self.pictures@,
            last_video_featured_time: self.last_video_featured_time@,
            parent: self.parent@,
            subcategories: views_of_list(self.subcategories@),
            resource_key: self.resource_key@,
        }
    }
}

impl JsonRecord for Category {
    open spec fn to_jsonv_spec(vv: CategoryV) -> JsonV {
        JsonV::Obj(
            seq![
                ("uri"@, JsonV::Str(vv.uri)),
                ("link"@, JsonV::Str(vv.link)),
                ("name"@, JsonV::Str(vv.name)),
                ("top_level"@, JsonV::Bool(vv.top_level)),
                ("pictures"@, Pictures::to_jsonv_spec(vv.pictures)),
                ("last_video_featured_time"@, JsonV::Str(vv.last_video_featured_time)),
                ("parent"@, SubCategory::to_jsonv_spec(vv.parent)),
                ("subcategories"@, JsonV::Arr(items_jsonv_spec::<SubCategory>(vv.subcategories))),
                ("resource_key"@, JsonV::Str(vv.resource_key)),
            ],
        )
    }

    open spec fn of_jsonv_spec(j: JsonV) -> Option<CategoryV> {
        match j {
            JsonV::Obj(f) => {
                let uri = as_str(find_field(f, "uri"@));
                let link = as_str(find_field(f, "link"@));
                let name = as_str(find_field(f, "name"@));
                let top_level = as_bool(find_field(f, "top_level"@));
                let pictures = rec_of_field::<Pictures>(f, "pictures"@);
                let last_video_featured_time = as_str(find_field(f, "last_video_featured_time"@));
                let parent = rec_of_field::<SubCategory>(f, "parent"@);
                let subcategories = list_of_field::<SubCategory>(f, "subcategories"@);
                let resource_key = as_str(find_field(f, "resource_key"@));
                if uri is Some && link is Some && name is Some && top_level is Some && pictures is Some && last_video_featured_time is Some && parent is Some && subcategories is Some && resource_key is Some {
                    Some(
                        CategoryV {
                            uri: uri->0,
                            link: link->0,
                            name: name->0,
                            top_level: top_level->0,
                            pictures: pictures->0,
                            last_video_featured_time: last_video_featured_time->0,
                            parent: parent->0,
                            subcategories: subcategories->0,
                            resource_key: resource_key->0,
                        },
                    )
                } else {
                    None
                }
            },
            _ => None,
        }
    }

    fn to_json(&self) -> (r: Json)
        ensures
            r@ == Self::to_jsonv_spec(self@),
    {
        let mut f: Vec<(String, Json)> = Vec::new();
        let p = ("uri".to_owned(), Json::Str(self.uri.clone()));
        proof {
            lemma_views_of_fields_push(f@, p);
        }
        f.push(p);
        let p = ("link".to_owned(), Json::Str(self.link.clone()));
        proof {
            lemma_views_of_fields_push(f@, p);
        }
        f.push(p);
        let p = ("name".to_owned(), Json::Str(self.name.clone()));
        proof {
            lemma_views_of_fields_push(f@, p);
        }
        f.push(p);
        let p = ("top_level".to_owned(), Json::Bool(self.top_level));
        proof {
            lemma_views_of_fields_push(f@, p);
        }
        f.push(p);
        let p = ("pictures".to_owned(), self.pictures.to_json());
        proof {
            lemma_views_of_fields_push(f@, p);
        }
        f.push(p);
        let p = ("last_video_featured_time".to_owned(), Json::Str(self.last_video_featured_time.clone()));
        proof {
            lemma_views_of_fields_push(f@, p);
        }
        f.push(p);
        let p = ("parent".to_owned(), self.parent.to_json());
        proof {
            lemma_views_of_fields_push(f@, p);
        }
        f.push(p);
        let p = ("subcategories".to_owned(), Json::Arr(list_to_json::<SubCategory>(&self.subcategories)));
        proof {
            lemma_views_of_fields_push(f@, p);
        }
        f.push(p);
        let p = ("resource_key".to_owned(), Json::Str(self.resource_key.clone()));
        proof {
            lemma_views_of_fields_push(f@, p);
        }
        f.push(p);
        proof {
            assert(views_of_fields(f@) =~= seq![
                ("uri"@, JsonV::Str(self@.uri)),
                ("link"@, JsonV::Str(self@.link)),
                ("name"@, JsonV::Str(self@.name)),
                ("top_level"@, JsonV::Bool(self@.top_level)),
                ("pictures"@, Pictures::to_jsonv_spec(self@.pictures)),
                ("last_video_featured_time"@, JsonV::Str(self@.last_video_featured_time)),
                ("parent"@, SubCategory::to_jsonv_spec(self@.parent)),
                ("subcategories"@, JsonV::Arr(items_jsonv_spec::<SubCategory>(self@.subcategories))),
                ("resource_key"@, JsonV::Str(self@.resource_key)),
            ]);
        }
        Json::Obj(f)
    }

    fn from_json(j: &Json) -> (r: Option<Category>)
        ensures
            match r {
                Some(x) => Self::of_jsonv_spec(j@) == Some(x@),
                None => Self::of_jsonv_spec(j@) is None,
            },
    {
        let fields = match j {
            Json::Obj(f) => f,
            _ => {
                return None;
            },
        };
        let uri = match get_str(fields, "uri") {
            Some(v) => v,
            None => {
                return None;
            },
        };
        let link = match get_str(fields, "link") {
            Some(v) => v,
            None => {
                return None;
            },
        };
        let name = match get_str(fields, "name") {
            Some(v) => v,
            None => {
                return None;
            },
        };
        let top_level = match get_bool(fields, "top_level") {
            Some(v) => v,
            None => {
                return None;
            },
        };
        let pictures = match get_rec::<Pictures>(fields, "pictures") {
            Some(v) => v,
            None => {
                return None;
            },
        };
        let last_video_featured_time = match get_str(fields, "last_video_featured_time") {
            Some(v) => v,
            None => {
                return None;
            },
        };
        let parent = match get_rec::<SubCategory>(fields, "parent") {
            Some(v) => v,
            None => {
                return None;
            },
        };
        let subcategories = match get_list::<SubCategory>(fields, "subcategories") {
            Some(v) => v,
            None => {
                return None;
            },
        };
        let resource_key = match get_str(fields, "resource_key") {
            Some(v) => v,
            None => {
                return None;
            },
        };
        Some(Category { uri, link, name, top_level, pictures, last_video_featured_time, parent, subcategories, resource_key })
    }
}

/// The record decodes back from its own encoding, field for field.
pub proof fn lemma_category_roundtrip(v: CategoryV)
    requires
        v.wf(),
    ensures
        Category::of_jsonv_spec(Category::to_jsonv_spec(v)) == Some(v),
{
    reveal_strlit("last_video_featured_time");
    reveal_strlit("link");
    reveal_strlit("name");
    reveal_strlit("parent");
    reveal_strlit("pictures");
    reveal_strlit("resource_key");
    reveal_strlit("subcategories");
    reveal_strlit("top_level");
    reveal_strlit("uri");
    assert("last_video_featured_time"@.len() == 24);
    assert("link"@.len() == 4);
    assert("name"@.len() == 4);
    assert("parent"@.len() == 6);
    assert("pictures"@.len() == 8);
    assert("resource_key"@.len() == 12);
    assert("subcategories"@.len() == 13);
    assert("top_level"@.len() == 9);
    assert("uri"@.len() == 3);
    let f = seq![
        ("uri"@, JsonV::Str(v.uri)),
        ("link"@, JsonV::Str(v.link)),
        ("name"@, JsonV::Str(v.name)),
        ("top_level"@, JsonV::Bool(v.top_level)),
        ("pictures"@, Pictures::to_jsonv_spec(v.pictures)),
        ("last_video_featured_time"@, JsonV::Str(v.last_video_featured_time)),
        ("parent"@, SubCategory::to_jsonv_spec(v.parent)),
        ("subcategories"@, JsonV::Arr(items_jsonv_spec::<SubCategory>(v.subcategories))),
        ("resource_key"@, JsonV::Str(v.resource_key)),
    ];
    assert("link"@[0] == 'l' && "name"@[0] == 'n');
    assert("link"@ != "name"@);
    lemma_pictures_roundtrip(v.pictures);
    lemma_sub_category_roundtrip(v.parent);
    assert forall|i: int| 0 <= i < v.subcategories.len() implies SubCategory::of_jsonv_spec(
        SubCategory::to_jsonv_spec(#[trigger] v.subcategories[i])) == Some(v.subcategories[i]) by {
        lemma_sub_category_roundtrip(v.subcategories[i]);
    }
    lemma_items_roundtrip::<SubCategory>(v.subcategories);
    assert(find_field(f, "uri"@) == Some(JsonV::Str(v.uri))) by {
        assert(f[0].0 == "uri"@);
        assert forall|q: int| 0 <= q < 0 implies (#[trigger] f[q]).0 != "uri"@ by {}
        lemma_find_field_at(f, "uri"@, 0);
    }
    assert(find_field(f, "link"@) == Some(JsonV::Str(v.link))) by {
        assert(f[1].0 == "link"@);
        assert forall|q: int| 0 <= q < 1 implies (#[trigger] f[q]).0 != "link"@ by {}
        lemma_find_field_at(f, "link"@, 1);
    }
    assert(find_field(f, "name"@) == Some(JsonV::Str(v.name))) by {
        assert(f[2].0 == "name"@);
        assert forall|q: int| 0 <= q < 2 implies (#[trigger] f[q]).0 != "name"@ by {}
        lemma_find_field_at(f, "name"@, 2);
    }
    assert(find_field(f, "top_level"@) == Some(JsonV::Bool(v.top_level))) by {
        assert(f[3].0 == "top_level"@);
        assert forall|q: int| 0 <= q < 3 implies (#[trigger] f[q]).0 != "top_level"@ by {}
        lemma_find_field_at(f, "top_level"@, 3);
    }
    assert(find_field(f, "pictures"@) == Some(Pictures::to_jsonv_spec(v.pictures))) by {
        assert(f[4].0 == "pictures"@);
        assert forall|q: int| 0 <= q < 4 implies (#[trigger] f[q]).0 != "pictures"@ by {}
        lemma_find_field_at(f, "pictures"@, 4);
    }
    assert(find_field(f, "last_video_featured_time"@) == Some(JsonV::Str(v.last_video_featured_time))) by {
        assert(f[5].0 == "last_video_featured_time"@);
        assert forall|q: int| 0 <= q < 5 implies (#[trigger] f[q]).0 != "last_video_featured_time"@ by {}
        lemma_find_field_at(f, "last_video_featured_time"@, 5);
    }
    assert(find_field(f, "parent"@) == Some(SubCategory::to_jsonv_spec(v.parent))) by {
        assert(f[6].0 == "parent"@);
        assert forall|q: int| 0 <= q < 6 implies (#[trigger] f[q]).0 != "parent"@ by {}
        lemma_find_field_at(f, "parent"@, 6);
    }
    assert(find_field(f, "subcategories"@) == Some(JsonV::Arr(items_jsonv_spec::<SubCategory>(v.subcategories)))) by {
        assert(f[7].0 == "subcategories"@);
        assert forall|q: int| 0 <= q < 7 implies (#[trigger] f[q]).0 != "subcategories"@ by {}
        lemma_find_field_at(f, "subcategories"@, 7);
    }
    assert(find_field(f, "resource_key"@) == Some(JsonV::Str(v.resource_key))) by {
        assert(f[8].0 == "resource_key"@);
        assert forall|q: int| 0 <= q < 8 implies (#[trigger] f[q]).0 != "resource_key"@ by {}
        lemma_find_field_at(f, "resource_key"@, 8);
    }
}

pub struct VideoV {
    pub uri: Seq<char>,
    pub name: Seq<char>,
    pub description: Option<Seq<char>>,
    pub link: Seq<char>,
    pub duration: int,
    pub width: int,
    pub height: int,
    pub language: Seq<char>,
    pub created_time: Seq<char>,
    pub modified_time: Seq<char>,
    pub release_time: Seq<char>,
    pub content_rating: Seq<Seq<char>>,
    pub license: Option<Seq<char>>,
    pub privacy: PrivacyV,
    pub pictures: PicturesV,
    pub tags: Seq<TagV>,
    pub stats: StatsV,
    pub categories: Seq<CategoryV>,
    pub user: UserV,
    pub status: Seq<char>,
    pub resource_key: Seq<char>,
    pub embed_presets: Option<EmbedPresetsV>,
    pub upload: UploadV,
    pub transcode: TranscodeV,
}

impl VideoV {
    /// Numeric fields fit their machine type, nested records likewise.
    pub open spec fn wf(self) -> bool {
        &&& i32::MIN <= self.duration <= i32::MAX
        &&& i32::MIN <= self.width <= i32::MAX
        &&& i32::MIN <= self.height <= i32::MAX
        &&& self.privacy.wf()
        &&& self.pictures.wf()
        &&& (forall|i: int| 0 <= i < self.tags.len() ==> (#[trigger] self.tags[i]).wf())
        &&& self.stats.wf()
        &&& (forall|i: int| 0 <= i < self.categories.len() ==> (#[trigger] self.categories[i]).wf())
        &&& self.user.wf()
        &&& (self.embed_presets matches Some(x) ==> x.wf())
        &&& self.upload.wf()
        &&& self.transcode.wf()
    }
}

/// A video as the remote API reports it.
#[derive(Debug, Clone, PartialEq)]
pub struct Video {
    pub uri: String,
    pub name: String,
    pub description: Option<String>,
    pub link: String,
    pub duration: i32,
    pub width: i32,
    pub height: i32,
    pub language: String,
    pub created_time: String,
    pub modified_time: String,
    pub release_time: String,
    pub content_rating: Vec<String>,
    pub license: Option<String>,
    pub privacy: Privacy,
    pub pictures: Pictures,
    pub tags: Vec<Tag>,
    pub stats: Stats,
    pub categories: Vec<Category>,
    pub user: User,
    pub status: String,
    pub resource_key: String,
    pub embed_presets: Option<EmbedPresets>,
    pub upload: Upload,
    pub transcode: Transcode,
}

impl View for Video {
    type V = VideoV;

    open spec fn view(&self) -> VideoV {
        VideoV {
            uri: self.uri@,
            name: self.name@,
            description: opt_view(self.description),
            link: self.link@,
            duration: self.duration as int,
            width: self.width as int,
            height: self.height as int,
            language: self.language@,
            created_time: self.created_time@,
            modified_time: self.modified_time@,
            release_time: self.release_time@,
            content_rating: views_of_list(self.content_rating@),
            license: opt_view(self.license),
            privacy: self.privacy@,
            pictures: self.pictures@,
            tags: views_of_list(self.tags@),
            stats: self.stats@,
            categories: views_of_list(self.categories@),
            user: self.user@,
            status: self.status@,
            resource_key: self.resource_key@,
            embed_presets: opt_view(self.embed_presets),
            upload: self.upload@,
            transcode: self.transcode@,
        }
    }
}

impl JsonRecord for Video {
    open spec fn to_jsonv_spec(vv: VideoV) -> JsonV {
        JsonV::Obj(
            seq![
                ("uri"@, JsonV::Str(vv.uri)),
                ("name"@, JsonV::Str(vv.name)),
                ("description"@, opt_str_jsonv(vv.description)),
                ("link"@, JsonV::Str(vv.link)),
                ("duration"@, JsonV::Int(vv.duration)),
                ("width"@, JsonV::Int(vv.width)),
                ("height"@, JsonV::Int(vv.height)),
                ("language"@, JsonV::Str(vv.language)),
                ("created_time"@, JsonV::Str(vv.created_time)),
                ("modified_time"@, JsonV::Str(vv.modified_time)),
                ("release_time"@, JsonV::Str(vv.release_time)),
                ("content_rating"@, JsonV::Arr(items_jsonv_spec::<String>(vv.content_rating))),
                ("license"@, opt_str_jsonv(vv.license)),
                ("privacy"@, Privacy::to_jsonv_spec(vv.privacy)),
                ("pictures"@, Pictures::to_jsonv_spec(vv.pictures)),
                ("tags"@, JsonV::Arr(items_jsonv_spec::<Tag>(vv.tags))),
                ("stats"@, Stats::to_jsonv_spec(vv.stats)),
                ("categories"@, JsonV::Arr(items_jsonv_spec::<Category>(vv.categories))),
                ("user"@, User::to_jsonv_spec(vv.user)),
                ("status"@, JsonV::Str(vv.status)),
                ("resource_key"@, JsonV::Str(vv.resource_key)),
                ("embed_presets"@, opt_rec_jsonv::<EmbedPresets>(vv.embed_presets)),
                ("upload"@, Upload::to_jsonv_spec(vv.upload)),
                ("transcode"@, Transcode::to_jsonv_spec(vv.transcode)),
            ],
        )
    }

    open spec fn of_jsonv_spec(j: JsonV) -> Option<VideoV> {
        match j {
            JsonV::Obj(f) => {
                let uri = as_str(find_field(f, "uri"@));
                let name = as_str(find_field(f, "name"@));
                let description = as_opt_str(find_field(f, "description"@));
                let link = as_str(find_field(f, "link"@));
                let duration = as_int(find_field(f, "duration"@));
                let width = as_int(find_field(f, "width"@));
                let height = as_int(find_field(f, "height"@));
                let language = as_str(find_field(f, "language"@));
                let created_time = as_str(find_field(f, "created_time"@));
                let modified_time = as_str(find_field(f, "modified_time"@));
                let release_time = as_str(find_field(f, "release_time"@));
                let content_rating = list_of_field::<String>(f, "content_rating"@);
                let license = as_opt_str(find_field(f, "license"@));
                let privacy = rec_of_field::<Privacy>(f, "privacy"@);
                let pictures = rec_of_field::<Pictures>(f, "pictures"@);
                let tags = list_of_field::<Tag>(f, "tags"@);
                let stats = rec_of_field::<Stats>(f, "stats"@);
                let categories = list_of_field::<Category>(f, "categories"@);
                let user = rec_of_field::<User>(f, "user"@);
                let status = as_str(find_field(f, "status"@));
                let resource_key = as_str(find_field(f, "resource_key"@));
                let embed_presets = opt_rec_of_field::<EmbedPresets>(f, "embed_presets"@);
                let upload = rec_of_field::<Upload>(f, "upload"@);
                let transcode = rec_of_field::<Transcode>(f, "transcode"@);
                if uri is Some && name is Some && description is Some && link is Some && duration is Some && i32::MIN <= duration->0 <= i32::MAX && width is Some && i32::MIN <= width->0 <= i32::MAX && height is Some && i32::MIN <= height->0 <= i32::MAX && language is Some && created_time is Some && modified_time is Some && release_time is Some && content_rating is Some && license is Some && privacy is Some && pictures is Some && tags is Some && stats is Some && categories is Some && user is Some && status is Some && resource_key is Some && embed_presets is Some && upload is Some && transcode is Some {
                    Some(
                        VideoV {
                            uri: uri->0,
                            name: name->0,
                            description: description->0,
                            link: link->0,
                            duration: duration->0,
                            width: width->0,
                            height: height->0,
                            language: language->0,
                            created_time: created_time->0,
                            modified_time: modified_time->0,
                            release_time: release_time->0,
                            content_rating: content_rating->0,
                            license: license->0,
                            privacy: privacy->0,
                            pictures: pictures->0,
                            tags: tags->0,
                            stats: stats->0,
                            categories: categories->0,
                            user: user->0,
                            status: status->0,
                            resource_key: resource_key->0,
                            embed_presets: embed_presets->0,
                            upload: upload->0,
                            transcode: transcode->0,
                        },
                    )
                } else {
                    None
                }
            },
            _ => None,
        }
    }

    fn to_json(&self) -> (r: Json)
        ensures
            r@ == Self::to_jsonv_spec(self@),
    {
        let mut f: Vec<(String, Json)> = Vec::new();
        let p = ("uri".to_owned(), Json::Str(self.uri.clone()));
        proof {
            lemma_views_of_fields_push(f@, p);
        }
        f.push(p);
        let p = ("name".to_owned(), Json::Str(self.name.clone()));
        proof {
            lemma_views_of_fields_push(f@, p);
        }
        f.push(p);
        let p = ("description".to_owned(), opt_str_to_json(&self.description));
        proof {
            lemma_views_of_fields_push(f@, p);
        }
        f.push(p);
        let p = ("link".to_owned(), Json::Str(self.link.clone()));
        proof {
            lemma_views_of_fields_push(f@, p);
        }
        f.push(p);
        let p = ("duration".to_owned(), Json::Int(self.duration as i64));
        proof {
            lemma_views_of_fields_push(f@, p);
        }
        f.push(p);
        let p = ("width".to_owned(), Json::Int(self.width as i64));
        proof {
            lemma_views_of_fields_push(f@, p);
        }
        f.push(p);
        let p = ("height".to_owned(), Json::Int(self.height as i64));
        proof {
            lemma_views_of_fields_push(f@, p);
        }
        f.push(p);
        let p = ("language".to_owned(), Json::Str(self.language.clone()));
        proof {
            lemma_views_of_fields_push(f@, p);
        }
        f.push(p);
        let p = ("created_time".to_owned(), Json::Str(self.created_time.clone()));
        proof {
            lemma_views_of_fields_push(f@, p);
        }
        f.push(p);
        let p = ("modified_time".to_owned(), Json::Str(self.modified_time.clone()));
        proof {
            lemma_views_of_fields_push(f@, p);
        }
        f.push(p);
        let p = ("release_time".to_owned(), Json::Str(self.release_time.clone()));
        proof {
            lemma_views_of_fields_push(f@, p);
        }
        f.push(p);
        let p = ("content_rating".to_owned(), Json::Arr(list_to_json::<String>(&self.content_rating)));
        proof {
            lemma_views_of_fields_push(f@, p);
        }
        f.push(p);
        let p = ("license".to_owned(), opt_str_to_json(&self.license));
        proof {
            lemma_views_of_fields_push(f@, p);
        }
        f.push(p);
        let p = ("privacy".to_owned(), self.privacy.to_json());
        proof {
            lemma_views_of_fields_push(f@, p);
        }
        f.push(p);
        let p = ("pictures".to_owned(), self.pictures.to_json());
        proof {
            lemma_views_of_fields_push(f@, p);
        }
        f.push(p);
        let p = ("tags".to_owned(), Json::Arr(list_to_json::<Tag>(&self.tags)));
        proof {
            lemma_views_of_fields_push(f@, p);
        }
        f.push(p);
        let p = ("stats".to_owned(), self.stats.to_json());
        proof {
            lemma_views_of_fields_push(f@, p);
        }
        f.push(p);
        let p = ("categories".to_owned(), Json::Arr(list_to_json::<Category>(&self.categories)));
        proof {
            lemma_views_of_fields_push(f@, p);
        }
        f.push(p);
        let p = ("user".to_owned(), self.user.to_json());
        proof {
            lemma_views_of_fields_push(f@, p);
        }
        f.push(p);
        let p = ("status".to_owned(), Json::Str(self.status.clone()));
        proof {
            lemma_views_of_fields_push(f@, p);
        }
        f.push(p);
        let p = ("resource_key".to_owned(), Json::Str(self.resource_key.clone()));
        proof {
            lemma_views_of_fields_push(f@, p);
        }
        f.push(p);
        let p = ("embed_presets".to_owned(), opt_rec_to_json::<EmbedPresets>(&self.embed_presets));
        proof {
            lemma_views_of_fields_push(f@, p);
        }
        f.push(p);
        let p = ("upload".to_owned(), self.upload.to_json());
        proof {
            lemma_views_of_fields_push(f@, p);
        }
        f.push(p);
        let p = ("transcode".to_owned(), self.transcode.to_json());
        proof {
            lemma_views_of_fields_push(f@, p);
        }
        f.push(p);
        proof {
            assert(views_of_fields(f@) =~= seq![
                ("uri"@, JsonV::Str(self@.uri)),
                ("name"@, JsonV::Str(self@.name)),
                ("description"@, opt_str_jsonv(self@.description)),
                ("link"@, JsonV::Str(self@.link)),
                ("duration"@, JsonV::Int(self@.duration)),
                ("width"@, JsonV::Int(self@.width)),
                ("height"@, JsonV::Int(self@.height)),
                ("language"@, JsonV::Str(self@.language)),
                ("created_time"@, JsonV::Str(self@.created_time)),
                ("modified_time"@, JsonV::Str(self@.modified_time)),
                ("release_time"@, JsonV::Str(self@.release_time)),
                ("content_rating"@, JsonV::Arr(items_jsonv_spec::<String>(self@.content_rating))),
                ("license"@, opt_str_jsonv(self@.license)),
                ("privacy"@, Privacy::to_jsonv_spec(self@.privacy)),
                ("pictures"@, Pictures::to_jsonv_spec(self@.pictures)),
                ("tags"@, JsonV::Arr(items_jsonv_spec::<Tag>(self@.tags))),
                ("stats"@, Stats::to_jsonv_spec(self@.stats)),
                ("categories"@, JsonV::Arr(items_jsonv_spec::<Category>(self@.categories))),
                ("user"@, User::to_jsonv_spec(self@.user)),
                ("status"@, JsonV::Str(self@.status)),
                ("resource_key"@, JsonV::Str(self@.resource_key)),
                ("embed_presets"@, opt_rec_jsonv::<EmbedPresets>(self@.embed_presets)),
                ("upload"@, Upload::to_jsonv_spec(self@.upload)),
                ("transcode"@, Transcode::to_jsonv_spec(self@.transcode)),
            ]);
        }
        Json::Obj(f)
    }

    fn from_json(j: &Json) -> (r: Option<Video>)
        ensures
            match r {
                Some(x) => Self::of_jsonv_spec(j@) == Some(x@),
                None => Self::of_jsonv_spec(j@) is None,
            },
    {
        let fields = match j {
            Json::Obj(f) => f,
            _ => {
                return None;
            },
        };
        let uri = match get_str(fields, "uri") {
            Some(v) => v,
            None => {
                return None;
            },
        };
        let name = match get_str(fields, "name") {
            Some(v) => v,
            None => {
                return None;
            },
        };
        let description = match get_opt_str(fields, "description") {
            Some(v) => v,
            None => {
                return None;
            },
        };
        let link = match get_str(fields, "link") {
            Some(v) => v,
            None => {
                return None;
            },
        };
        let duration = match get_i32(fields, "duration") {
            Some(v) => v,
            None => {
                return None;
            },
        };
        let width = match get_i32(fields, "width") {
            Some(v) => v,
            None => {
                return None;
            },
        };
        let height = match get_i32(fields, "height") {
            Some(v) => v,
            None => {
                return None;
            },
        };
        let language = match get_str(fields, "language") {
            Some(v) => v,
            None => {
                return None;
            },
        };
        let created_time = match get_str(fields, "created_time") {
            Some(v) => v,
            None => {
                return None;
            },
        };
        let modified_time = match get_str(fields, "modified_time") {
            Some(v) => v,
            None => {
                return None;
            },
        };
        let release_time = match get_str(fields, "release_time") {
            Some(v) => v,
            None => {
                return None;
            },
        };
        let content_rating = match get_list::<String>(fields, "content_rating") {
            Some(v) => v,
            None => {
                return None;
            },
        };
        let license = match get_opt_str(fields, "license") {
            Some(v) => v,
            None => {
                return None;
            },
        };
        let privacy = match get_rec::<Privacy>(fields, "privacy") {
            Some(v) => v,
            None => {
                return None;
            },
        };
        let pictures = match get_rec::<Pictures>(fields, "pictures") {
            Some(v) => v,
            None => {
                return None;
            },
        };
        let tags = match get_list::<Tag>(fields, "tags") {
            Some(v) => v,
            None => {
                return None;
            },
        };
        let stats = match get_rec::<Stats>(fields, "stats") {
            Some(v) => v,
            None => {
                return None;
            },
        };
        let categories = match get_list::<Category>(fields, "categories") {
            Some(v) => v,
            None => {
                return None;
            },
        };
        let user = match get_rec::<User>(fields, "user") {
            Some(v) => v,
            None => {
                return None;
            },
        };
        let status = match get_str(fields, "status") {
            Some(v) => v,
            None => {
                return None;
            },
        };
        let resource_key = match get_str(fields, "resource_key") {
            Some(v) => v,
            None => {
                return None;
            },
        };
        let embed_presets = match get_opt_rec::<EmbedPresets>(fields, "embed_presets") {
            Some(v) => v,
            None => {
                return None;
            },
        };
        let upload = match get_rec::<Upload>(fields, "upload") {
            Some(v) => v,
            None => {
                return None;
            },
        };
        let transcode = match get_rec::<Transcode>(fields, "transcode") {
            Some(v) => v,
            None => {
                return None;
            },
        };
        Some(Video { uri, name, description, link, duration, width, height, language, created_time, modified_time, release_time, content_rating, license, privacy, pictures, tags, stats, categories, user, status, resource_key, embed_presets, upload, transcode })
    }
}

/// The record decodes back from its own encoding, field for field.
#[verifier::rlimit(100)]
#[verifier::spinoff_prover]
pub proof fn lemma_video_roundtrip(v: VideoV)
    requires
        v.wf(),
    ensures
        Video::of_jsonv_spec(Video::to_jsonv_spec(v)) == Some(v),
{
    reveal_strlit("categories");
    reveal_strlit("content_rating");
    reveal_strlit("created_time");
    reveal_strlit("description");
    reveal_strlit("duration");
    reveal_strlit("embed_presets");
    reveal_strlit("height");
    reveal_strlit("language");
    reveal_strlit("license");
    reveal_strlit("link");
    reveal_strlit("modified_time");
    reveal_strlit("name");
    reveal_strlit("pictures");
    reveal_strlit("privacy");
    reveal_strlit("release_time");
    reveal_strlit("resource_key");
    reveal_strlit("stats");
    reveal_strlit("status");
    reveal_strlit("tags");
    reveal_strlit("transcode");
    reveal_strlit("upload");
    reveal_strlit("uri");
    reveal_strlit("user");
    reveal_strlit("width");
    assert("categories"@.len() == 10);
    assert("content_rating"@.len() == 14);
    assert("created_time"@.len() == 12);
    assert("description"@.len() == 11);
    assert("duration"@.len() == 8);
    assert("embed_presets"@.len() == 13);
    assert("height"@.len() == 6);
    assert("language"@.len() == 8);
    assert("license"@.len() == 7);
    assert("link"@.len() == 4);
    assert("modified_time"@.len() == 13);
    assert("name"@.len() == 4);
    assert("pictures"@.len() == 8);
    assert("privacy"@.len() == 7);
    assert("release_time"@.len() == 12);
    assert("resource_key"@.len() == 12);
    assert("stats"@.len() == 5);
    assert("status"@.len() == 6);
    assert("tags"@.len() == 4);
    assert("transcode"@.len() == 9);
    assert("upload"@.len() == 6);
    assert("uri"@.len() == 3);
    assert("user"@.len() == 4);
    assert("width"@.len() == 5);
    let f = seq![
        ("uri"@, JsonV::Str(v.uri)),
        ("name"@, JsonV::Str(v.name)),
        ("description"@, opt_str_jsonv(v.description)),
        ("link"@, JsonV::Str(v.link)),
        ("duration"@, JsonV::Int(v.duration)),
        ("width"@, JsonV::Int(v.width)),
        ("height"@, JsonV::Int(v.height)),
        ("language"@, JsonV::Str(v.language)),
        ("created_time"@, JsonV::Str(v.created_time)),
        ("modified_time"@, JsonV::Str(v.modified_time)),
        ("release_time"@, JsonV::Str(v.release_time)),
        ("content_rating"@, JsonV::Arr(items_jsonv_spec::<String>(v.content_rating))),
        ("license"@, opt_str_jsonv(v.license)),
        ("privacy"@, Privacy::to_jsonv_spec(v.privacy)),
        ("pictures"@, Pictures::to_jsonv_spec(v.pictures)),
        ("tags"@, JsonV::Arr(items_jsonv_spec::<Tag>(v.tags))),
        ("stats"@, Stats::to_jsonv_spec(v.stats)),
        ("categories"@, JsonV::Arr(items_jsonv_spec::<Category>(v.categories))),
        ("user"@, User::to_jsonv_spec(v.user)),
        ("status"@, JsonV::Str(v.status)),
        ("resource_key"@, JsonV::Str(v.resource_key)),
        ("embed_presets"@, opt_rec_jsonv::<EmbedPresets>(v.embed_presets)),
        ("upload"@, Upload::to_jsonv_spec(v.upload)),
        ("transcode"@, Transcode::to_jsonv_spec(v.transcode)),
    ];
    assert("name"@[0] == 'n' && "link"@[0] == 'l');
    assert("name"@ != "link"@);
    assert("duration"@[0] == 'd' && "language"@[0] == 'l');
    assert("duration"@ != "language"@);
    assert("created_time"@[0] == 'c' && "release_time"@[0] == 'r');
    assert("created_time"@ != "release_time"@);
    assert("license"@[0] == 'l' && "privacy"@[0] == 'p');
    assert("license"@ != "privacy"@);
    assert("duration"@[0] == 'd' && "pictures"@[0] == 'p');
    assert("duration"@ != "pictures"@);
    assert("language"@[0] == 'l' && "pictures"@[0] == 'p');
    assert("language"@ != "pictures"@);
    assert("name"@[0] == 'n' && "tags"@[0] == 't');
    assert("name"@ != "tags"@);
    assert("link"@[0] == 'l' && "tags"@[0] == 't');
    assert("link"@ != "tags"@);
    assert("width"@[0] == 'w' && "stats"@[0] == 's');
    assert("width"@ != "stats"@);
    assert("name"@[0] == 'n' && "user"@[0] == 'u');
    assert("name"@ != "user"@);
    assert("link"@[0] == 'l' && "user"@[0] == 'u');
    assert("link"@ != "user"@);
    assert("tags"@[0] == 't' && "user"@[0] == 'u');
    assert("tags"@ != "user"@);
    assert("height"@[0] == 'h' && "status"@[0] == 's');
    assert("height"@ != "status"@);
    assert("created_time"@[0] == 'c' && "resource_key"@[0] == 'r');
    assert("created_time"@ != "resource_key"@);
    assert("release_time"@[2] == 'l' && "resource_key"@[2] == 's');
    assert("release_time"@ != "resource_key"@);
    assert("modified_time"@[0] == 'm' && "embed_presets"@[0] == 'e');
    assert("modified_time"@ != "embed_presets"@);
    assert("height"@[0] == 'h' && "upload"@[0] == 'u');
    assert("height"@ != "upload"@);
    assert("status"@[0] == 's' && "upload"@[0] == 'u');
    assert("status"@ != "upload"@);
    lemma_privacy_roundtrip(v.privacy);
    lemma_pictures_roundtrip(v.pictures);
    lemma_stats_roundtrip(v.stats);
    lemma_user_roundtrip(v.user);
    lemma_upload_roundtrip(v.upload);
    lemma_transcode_roundtrip(v.transcode);
    assert forall|i: int| 0 <= i < v.content_rating.len() implies String::of_jsonv_spec(
        String::to_jsonv_spec(#[trigger] v.content_rating[i])) == Some(v.content_rating[i]) by {}
    lemma_items_roundtrip::<String>(v.content_rating);
    assert forall|i: int| 0 <= i < v.tags.len() implies Tag::of_jsonv_spec(
        Tag::to_jsonv_spec(#[trigger] v.tags[i])) == Some(v.tags[i]) by {
        lemma_tag_roundtrip(v.tags[i]);
    }
    lemma_items_roundtrip::<Tag>(v.tags);
    assert forall|i: int| 0 <= i < v.categories.len() implies Category::of_jsonv_spec(
        Category::to_jsonv_spec(#[trigger] v.categories[i])) == Some(v.categories[i]) by {
        lemma_category_roundtrip(v.categories[i]);
    }
    lemma_items_roundtrip::<Category>(v.categories);
    match v.embed_presets {
        Some(x) => {
            lemma_embed_presets_roundtrip(x);
        },
        None => {},
    }
    assert(find_field(f, "uri"@) == Some(JsonV::Str(v.uri))) by {
        assert(f[0].0 == "uri"@);
        assert forall|q: int| 0 <= q < 0 implies (#[trigger] f[q]).0 != "uri"@ by {}
        lemma_find_field_at(f, "uri"@, 0);
    }
    assert(find_field(f, "name"@) == Some(JsonV::Str(v.name))) by {
        assert(f[1].0 == "name"@);
        assert forall|q: int| 0 <= q < 1 implies (#[trigger] f[q]).0 != "name"@ by {}
        lemma_find_field_at(f, "name"@, 1);
    }
    assert(find_field(f, "description"@) == Some(opt_str_jsonv(v.description))) by {
        assert(f[2].0 == "description"@);
        assert forall|q: int| 0 <= q < 2 implies (#[trigger] f[q]).0 != "description"@ by {}
        lemma_find_field_at(f, "description"@, 2);
    }
    assert(find_field(f, "link"@) == Some(JsonV::Str(v.link))) by {
        assert(f[3].0 == "link"@);
        assert forall|q: int| 0 <= q < 3 implies (#[trigger] f[q]).0 != "link"@ by {}
        lemma_find_field_at(f, "link"@, 3);
    }
    assert(find_field(f, "duration"@) == Some(JsonV::Int(v.duration))) by {
        assert(f[4].0 == "duration"@);
        assert forall|q: int| 0 <= q < 4 implies (#[trigger] f[q]).0 != "duration"@ by {}
        lemma_find_field_at(f, "duration"@, 4);
    }
    assert(find_field(f, "width"@) == Some(JsonV::Int(v.width))) by {
        assert(f[5].0 == "width"@);
        assert forall|q: int| 0 <= q < 5 implies (#[trigger] f[q]).0 != "width"@ by {}
        lemma_find_field_at(f, "width"@, 5);
    }
    assert(find_field(f, "height"@) == Some(JsonV::Int(v.height))) by {
        assert(f[6].0 == "height"@);
        assert forall|q: int| 0 <= q < 6 implies (#[trigger] f[q]).0 != "height"@ by {}
        lemma_find_field_at(f, "height"@, 6);
    }
    assert(find_field(f, "language"@) == Some(JsonV::Str(v.language))) by {
        assert(f[7].0 == "language"@);
        assert forall|q: int| 0 <= q < 7 implies (#[trigger] f[q]).0 != "language"@ by {}
        lemma_find_field_at(f, "language"@, 7);
    }
    assert(find_field(f, "created_time"@) == Some(JsonV::Str(v.created_time))) by {
        assert(f[8].0 == "created_time"@);
        assert forall|q: int| 0 <= q < 8 implies (#[trigger] f[q]).0 != "created_time"@ by {}
        lemma_find_field_at(f, "created_time"@, 8);
    }
    assert(find_field(f, "modified_time"@) == Some(JsonV::Str(v.modified_time))) by {
        assert(f[9].0 == "modified_time"@);
        assert forall|q: int| 0 <= q < 9 implies (#[trigger] f[q]).0 != "modified_time"@ by {}
        lemma_find_field_at(f, "modified_time"@, 9);
    }
    assert(find_field(f, "release_time"@) == Some(JsonV::Str(v.release_time))) by {
        assert(f[10].0 == "release_time"@);
        assert forall|q: int| 0 <= q < 10 implies (#[trigger] f[q]).0 != "release_time"@ by {}
        lemma_find_field_at(f, "release_time"@, 10);
    }
    assert(find_field(f, "content_rating"@) == Some(JsonV::Arr(items_jsonv_spec::<String>(v.content_rating)))) by {
        assert(f[11].0 == "content_rating"@);
        assert forall|q: int| 0 <= q < 11 implies (#[trigger] f[q]).0 != "content_rating"@ by {}
        lemma_find_field_at(f, "content_rating"@, 11);
    }
    assert(find_field(f, "license"@) == Some(opt_str_jsonv(v.license))) by {
        assert(f[12].0 == "license"@);
        assert forall|q: int| 0 <= q < 12 implies (#[trigger] f[q]).0 != "license"@ by {}
        lemma_find_field_at(f, "license"@, 12);
    }
    assert(find_field(f, "privacy"@) == Some(Privacy::to_jsonv_spec(v.privacy))) by {
        assert(f[13].0 == "privacy"@);
        assert forall|q: int| 0 <= q < 13 implies (#[trigger] f[q]).0 != "privacy"@ by {}
        lemma_find_field_at(f, "privacy"@, 13);
    }
    assert(find_field(f, "pictures"@) == Some(Pictures::to_jsonv_spec(v.pictures))) by {
        assert(f[14].0 == "pictures"@);
        assert forall|q: int| 0 <= q < 14 implies (#[trigger] f[q]).0 != "pictures"@ by {}
        lemma_find_field_at(f, "pictures"@, 14);
    }
    assert(find_field(f, "tags"@) == Some(JsonV::Arr(items_jsonv_spec::<Tag>(v.tags)))) by {
        assert(f[15].0 == "tags"@);
        assert forall|q: int| 0 <= q < 15 implies (#[trigger] f[q]).0 != "tags"@ by {}
        lemma_find_field_at(f, "tags"@, 15);
    }
    assert(find_field(f, "stats"@) == Some(Stats::to_jsonv_spec(v.stats))) by {
        assert(f[16].0 == "stats"@);
        assert forall|q: int| 0 <= q < 16 implies (#[trigger] f[q]).0 != "stats"@ by {}
        lemma_find_field_at(f, "stats"@, 16);
    }
    assert(find_field(f, "categories"@) == Some(JsonV::Arr(items_jsonv_spec::<Category>(v.categories)))) by {
        assert(f[17].0 == "categories"@);
        assert forall|q: int| 0 <= q < 17 implies (#[trigger] f[q]).0 != "categories"@ by {}
        lemma_find_field_at(f, "categories"@, 17);
    }
    assert(find_field(f, "user"@) == Some(User::to_jsonv_spec(v.user))) by {
        assert(f[18].0 == "user"@);
        assert forall|q: int| 0 <= q < 18 implies (#[trigger] f[q]).0 != "user"@ by {}
        lemma_find_field_at(f, "user"@, 18);
    }
    assert(find_field(f, "status"@) == Some(JsonV::Str(v.status))) by {
        assert(f[19].0 == "status"@);
        assert forall|q: int| 0 <= q < 19 implies (#[trigger] f[q]).0 != "status"@ by {}
        lemma_find_field_at(f, "status"@, 19);
    }
    assert(find_field(f, "resource_key"@) == Some(JsonV::Str(v.resource_key))) by {
        assert(f[20].0 == "resource_key"@);
        assert forall|q: int| 0 <= q < 20 implies (#[trigger] f[q]).0 != "resource_key"@ by {}
        lemma_find_field_at(f, "resource_key"@, 20);
    }
    assert(find_field(f, "embed_presets"@) == Some(opt_rec_jsonv::<EmbedPresets>(v.embed_presets))) by {
        assert(f[21].0 == "embed_presets"@);
        assert forall|q: int| 0 <= q < 21 implies (#[trigger] f[q]).0 != "embed_presets"@ by {}
        lemma_find_field_at(f, "embed_presets"@, 21);
    }
    assert(find_field(f, "upload"@) == Some(Upload::to_jsonv_spec(v.upload))) by {
        assert(f[22].0 == "upload"@);
        assert forall|q: int| 0 <= q < 22 implies (#[trigger] f[q]).0 != "upload"@ by {}
        lemma_find_field_at(f, "upload"@, 22);
    }
    assert(find_field(f, "transcode"@) == Some(Transcode::to_jsonv_spec(v.transcode))) by {
        assert(f[23].0 == "transcode"@);
        assert forall|q: int| 0 <= q < 23 implies (#[trigger] f[q]).0 != "transcode"@ by {}
        lemma_find_field_at(f, "transcode"@, 23);
    }
}


/// The path for the video listing: `users/{id}/videos`, or `me/videos` for
/// the caller's own videos.
pub open spec fn video_path_spec(uid: Option<Seq<char>>) -> Seq<char> {
    match uid {
        None => "me/videos"@,
        Some(u) => "users/"@ + u + "/videos"@,
    }
}

/// The one-page wrapper the listing endpoint answers with: its `data` field
/// holds the page's videos.  No pagination cursor is modeled; only this
/// first page reaches the caller.
pub open spec fn video_list_of_jsonv(j: JsonV) -> Option<Seq<VideoV>> {
    match j {
        JsonV::Obj(f) => list_of_field::<Video>(f, "data"@),
        _ => None,
    }
}

/// The video service: lists a user's videos over the shared transport.
pub struct VideoService {
    client: Transport,
}

impl Service for VideoService {
    closed spec fn transport_spec(&self) -> Transport {
        self.client
    }

    fn client(&self) -> (r: &Transport)
        ensures
            *r == self.transport_spec(),
    {
        &self.client
    }
}

impl VideoService {
    pub fn new(client: Transport) -> (r: VideoService)
        ensures
            r.transport_spec() == client,
    {
        VideoService { client }
    }

    /// The relative path this operation targets.
    pub fn list_path(maybe_uid: &Option<String>) -> (r: String)
        ensures
            r@ == video_path_spec(opt_str_view(*maybe_uid)),
    {
        match maybe_uid {
            None => "me/videos".to_owned(),
            Some(uid) => {
                let mut s = String::new();
                s.append("users/");
                s.append(uid.as_str());
                s.append("/videos");
                s
            },
        }
    }

    /// The GET request for this operation, resolved against the base URL,
    /// with no body.
    pub fn list_request(&self, maybe_uid: &Option<String>) -> (r: Result<ApiRequest, Error>)
        ensures
            r matches Ok(req) ==> {
                &&& req.method == Method::Get
                &&& req.body is None
                &&& req.url@ == BASE_URL@ + video_path_spec(opt_str_view(*maybe_uid))
                &&& crate::service::url_parse_ok(req.url@)
            },
            r is Ok <==> crate::service::url_parse_ok(
                BASE_URL@ + video_path_spec(opt_str_view(*maybe_uid)),
            ),
            r matches Err(e) ==> e == Error::InvalidUrl,
    {
        let path = Self::list_path(maybe_uid);
        self.request_builder(Method::Get, path.as_str(), None)
    }

    /// The ready-to-send reqwest builder for this operation: the assembled
    /// request, made concrete against the shared transport.  Fails exactly
    /// when the resolved URL does not parse.
    pub fn list_builder(&self, maybe_uid: &Option<String>) -> (r: Result<
        reqwest::RequestBuilder,
        Error,
    >)
        ensures
            r is Ok <==> crate::service::url_parse_ok(
                BASE_URL@ + video_path_spec(opt_str_view(*maybe_uid)),
            ),
            r matches Err(e) ==> e == Error::InvalidUrl,
    {
        let req = match self.list_request(maybe_uid) {
            Ok(req) => req,
            Err(e) => {
                return Err(e);
            },
        };
        match self.client().reqwest_builder(&req) {
            Ok(rb) => Ok(rb),
            Err(e) => {
                return Err(e);
            },
        }
    }

    /// What the operation returns once the endpoint has answered: a status
    /// outside 200..=299 is that status's failure; otherwise the body must
    /// be the JSON of the one-page wrapper, and the page's videos come back
    /// in order.
    pub fn parse_response(status: u16, body: &str) -> (r: Result<Vec<Video>, Error>)
        ensures
            !(200 <= status < 300) ==> r == Err::<Vec<Video>, Error>(Error::Status(status)),
            200 <= status < 300 ==> match parse_text(body@) {
                Some(jv) => match video_list_of_jsonv(jv) {
                    Some(vs) => r matches Ok(out) && views_of_list(out@) == vs,
                    None => r == Err::<Vec<Video>, Error>(Error::Decode),
                },
                None => r == Err::<Vec<Video>, Error>(Error::Decode),
            },
    {
        if !(status >= 200 && status < 300) {
            return Err(Error::Status(status));
        }
        let j = match from_text(body) {
            Some(j) => j,
            None => {
                return Err(Error::Decode);
            },
        };
        let fields = match &j {
            Json::Obj(f) => f,
            _ => {
                return Err(Error::Decode);
            },
        };
        match get_list::<Video>(fields, "data") {
            Some(out) => Ok(out),
            None => Err(Error::Decode),
        }
    }
}

/// A well-formed record encodes to a well-formed JSON value.
pub proof fn lemma_sub_category_jsonv_wf(v: SubCategoryV)
    requires
        v.wf(),
    ensures
        crate::json::wf(SubCategory::to_jsonv_spec(v)),
{
    let f = seq![
        ("uri"@, JsonV::Str(v.uri)),
        ("name"@, JsonV::Str(v.name)),
        ("link"@, JsonV::Str(v.link)),
    ];
    assert forall|q: int| 0 <= q < 3 implies crate::json::wf(#[trigger] f[q].1) by {
        if q == 0 {
            assert(f[0] == ("uri"@, JsonV::Str(v.uri)));
        } else if q == 1 {
            assert(f[1] == ("name"@, JsonV::Str(v.name)));
        } else if q == 2 {
            assert(f[2] == ("link"@, JsonV::Str(v.link)));
        }
    }
    assert(SubCategory::to_jsonv_spec(v) == JsonV::Obj(f));
}

/// A well-formed record encodes to a well-formed JSON value.
pub proof fn lemma_tag_jsonv_wf(v: TagV)
    requires
        v.wf(),
    ensures
        crate::json::wf(Tag::to_jsonv_spec(v)),
{
    let f = seq![
        ("uri"@, JsonV::Str(v.uri)),
        ("name"@, JsonV::Str(v.name)),
        ("tag"@, JsonV::Str(v.tag)),
        ("canonical"@, JsonV::Str(v.canonical)),
        ("resource_key"@, JsonV::Str(v.resource_key)),
    ];
    assert forall|q: int| 0 <= q < 5 implies crate::json::wf(#[trigger] f[q].1) by {
        if q == 0 {
            assert(f[0] == ("uri"@, JsonV::Str(v.uri)));
        } else if q == 1 {
            assert(f[1] == ("name"@, JsonV::Str(v.name)));
        } else if q == 2 {
            assert(f[2] == ("tag"@, JsonV::Str(v.tag)));
        } else if q == 3 {
            assert(f[3] == ("canonical"@, JsonV::Str(v.canonical)));
        } else if q == 4 {
            assert(f[4] == ("resource_key"@, JsonV::Str(v.resource_key)));
        }
    }
    assert(Tag::to_jsonv_spec(v) == JsonV::Obj(f));
}

/// A well-formed record encodes to a well-formed JSON value.
pub proof fn lemma_stats_jsonv_wf(v: StatsV)
    requires
        v.wf(),
    ensures
        crate::json::wf(Stats::to_jsonv_spec(v)),
{
    let f = seq![
        ("plays"@, JsonV::Int(v.plays)),
    ];
    assert forall|q: int| 0 <= q < 1 implies crate::json::wf(#[trigger] f[q].1) by {
        if q == 0 {
            assert(f[0] == ("plays"@, JsonV::Int(v.plays)));
        }
    }
    assert(Stats::to_jsonv_spec(v) == JsonV::Obj(f));
}

/// A well-formed record encodes to a well-formed JSON value.
pub proof fn lemma_buttons_jsonv_wf(v: ButtonsV)
    requires
        v.wf(),
    ensures
        crate::json::wf(Buttons::to_jsonv_spec(v)),
{
    let f = seq![
        ("like"@, JsonV::Bool(v.like)),
        ("watchlater"@, JsonV::Bool(v.watchlater)),
        ("share"@, JsonV::Bool(v.share)),
        ("embed"@, JsonV::Bool(v.embed)),
        ("vote"@, JsonV::Bool(v.vote)),
        ("HD"@, JsonV::Bool(v.hd)),
    ];
    assert forall|q: int| 0 <= q < 6 implies crate::json::wf(#[trigger] f[q].1) by {
        if q == 0 {
            assert(f[0] == ("like"@, JsonV::Bool(v.like)));
        } else if q == 1 {
            assert(f[1] == ("watchlater"@, JsonV::Bool(v.watchlater)));
        } else if q == 2 {
            assert(f[2] == ("share"@, JsonV::Bool(v.share)));
        } else if q == 3 {
            assert(f[3] == ("embed"@, JsonV::Bool(v.embed)));
        } else if q == 4 {
            assert(f[4] == ("vote"@, JsonV::Bool(v.vote)));
        } else if q == 5 {
            assert(f[5] == ("HD"@, JsonV::Bool(v.hd)));
        }
    }
    assert(Buttons::to_jsonv_spec(v) == JsonV::Obj(f));
}

/// A well-formed record encodes to a well-formed JSON value.
pub proof fn lemma_logos_jsonv_wf(v: LogosV)
    requires
        v.wf(),
    ensures
        crate::json::wf(Logos::to_jsonv_spec(v)),
{
    let f = seq![
        ("vimeo"@, JsonV::Bool(v.vimeo)),
    ];
    assert forall|q: int| 0 <= q < 1 implies crate::json::wf(#[trigger] f[q].1) by {
        if q == 0 {
            assert(f[0] == ("vimeo"@, JsonV::Bool(v.vimeo)));
        }
    }
    assert(Logos::to_jsonv_spec(v) == JsonV::Obj(f));
}

/// A well-formed record encodes to a well-formed JSON value.
pub proof fn lemma_embed_settings_jsonv_wf(v: EmbedSettingsV)
    requires
        v.wf(),
    ensures
        crate::json::wf(EmbedSettings::to_jsonv_spec(v)),
{
    let f = seq![
        ("buttons"@, opt_rec_jsonv::<Buttons>(v.buttons)),
        ("logos"@, Logos::to_jsonv_spec(v.logos)),
        ("outro"@, JsonV::Str(v.outro)),
        ("portrait"@, JsonV::Str(v.portrait)),
        ("title"@, JsonV::Str(v.title)),
        ("byline"@, JsonV::Str(v.byline)),
        ("badge"@, JsonV::Bool(v.badge)),
        ("byline_badge"@, JsonV::Bool(v.byline_badge)),
        ("collections_button"@, JsonV::Bool(v.collections_button)),
        ("playbar"@, JsonV::Bool(v.playbar)),
        ("volume"@, JsonV::Bool(v.volume)),
        ("fullscreen_button"@, JsonV::Bool(v.fullscreen_button)),
        ("scaling_button"@, JsonV::Bool(v.scaling_button)),
        ("autoplay"@, JsonV::Bool(v.autoplay)),
        ("autopause"@, JsonV::Bool(v.autopause)),
        ("loop"@, JsonV::Bool(v.looping)),
        ("color"@, JsonV::Str(v.color)),
        ("link"@, JsonV::Bool(v.link)),
        ("overlay_email_capture"@, JsonV::Int(v.overlay_email_capture)),
        ("overlay_email_capture_text"@, JsonV::Str(v.overlay_email_capture_text)),
        ("overlay_email_capture_confirmation"@, JsonV::Str(v.overlay_email_capture_confirmation)),
    ];
    match v.buttons {
        Some(x) => {
            lemma_buttons_jsonv_wf(x);
        },
        None => {},
    }
    lemma_logos_jsonv_wf(v.logos);
    assert forall|q: int| 0 <= q < 21 implies crate::json::wf(#[trigger] f[q].1) by {
        if q == 0 {
            assert(f[0] == ("buttons"@, opt_rec_jsonv::<Buttons>(v.buttons)));
        } else if q == 1 {
            assert(f[1] == ("logos"@, Logos::to_jsonv_spec(v.logos)));
        } else if q == 2 {
            assert(f[2] == ("outro"@, JsonV::Str(v.outro)));
        } else if q == 3 {
            assert(f[3] == ("portrait"@, JsonV::Str(v.portrait)));
        } else if q == 4 {
            assert(f[4] == ("title"@, JsonV::Str(v.title)));
        } else if q == 5 {
            assert(f[5] == ("byline"@, JsonV::Str(v.byline)));
        } else if q == 6 {
            assert(f[6] == ("badge"@, JsonV::Bool(v.badge)));
        } else if q == 7 {
            assert(f[7] == ("byline_badge"@, JsonV::Bool(v.byline_badge)));
        } else if q == 8 {
            assert(f[8] == ("collections_button"@, JsonV::Bool(v.collections_button)));
        } else if q == 9 {
            assert(f[9] == ("playbar"@, JsonV::Bool(v.playbar)));
        } else if q == 10 {
            assert(f[10] == ("volume"@, JsonV::Bool(v.volume)));
        } else if q == 11 {
            assert(f[11] == ("fullscreen_button"@, JsonV::Bool(v.fullscreen_button)));
        } else if q == 12 {
            assert(f[12] == ("scaling_button"@, JsonV::Bool(v.scaling_button)));
        } else if q == 13 {
            assert(f[13] == ("autoplay"@, JsonV::Bool(v.autoplay)));
        } else if q == 14 {
            assert(f[14] == ("autopause"@, JsonV::Bool(v.autopause)));
        } else if q == 15 {
            assert(f[15] == ("loop"@, JsonV::Bool(v.looping)));
        } else if q == 16 {
            assert(f[16] == ("color"@, JsonV::Str(v.color)));
        } else if q == 17 {
            assert(f[17] == ("link"@, JsonV::Bool(v.link)));
        } else if q == 18 {
            assert(f[18] == ("overlay_email_capture"@, JsonV::Int(v.overlay_email_capture)));
        } else if q == 19 {
            assert(f[19] == ("overlay_email_capture_text"@, JsonV::Str(v.overlay_email_capture_text)));
        } else if q == 20 {
            assert(f[20] == ("overlay_email_capture_confirmation"@, JsonV::Str(v.overlay_email_capture_confirmation)));
        }
    }
    assert(EmbedSettings::to_jsonv_spec(v) == JsonV::Obj(f));
}

/// A well-formed record encodes to a well-formed JSON value.
pub proof fn lemma_embed_presets_jsonv_wf(v: EmbedPresetsV)
    requires
        v.wf(),
    ensures
        crate::json::wf(EmbedPresets::to_jsonv_spec(v)),
{
    let f = seq![
        ("uri"@, JsonV::Str(v.uri)),
        ("name"@, JsonV::Str(v.name)),
        ("settings"@, EmbedSettings::to_jsonv_spec(v.settings)),
        ("user"@, opt_rec_jsonv::<User>(v.user)),
    ];
    lemma_embed_settings_jsonv_wf(v.settings);
    match v.user {
        Some(x) => {
            lemma_user_jsonv_wf(x);
        },
        None => {},
    }
    assert forall|q: int| 0 <= q < 4 implies crate::json::wf(#[trigger] f[q].1) by {
        if q == 0 {
            assert(f[0] == ("uri"@, JsonV::Str(v.uri)));
        } else if q == 1 {
            assert(f[1] == ("name"@, JsonV::Str(v.name)));
        } else if q == 2 {
            assert(f[2] == ("settings"@, EmbedSettings::to_jsonv_spec(v.settings)));
        } else if q == 3 {
            assert(f[3] == ("user"@, opt_rec_jsonv::<User>(v.user)));
        }
    }
    assert(EmbedPresets::to_jsonv_spec(v) == JsonV::Obj(f));
}

/// A well-formed record encodes to a well-formed JSON value.
pub proof fn lemma_upload_jsonv_wf(v: UploadV)
    requires
        v.wf(),
    ensures
        crate::json::wf(Upload::to_jsonv_spec(v)),
{
    let f = seq![
        ("status"@, JsonV::Str(v.status)),
        ("upload_link"@, opt_str_jsonv(v.upload_link)),
        ("redirect_url"@, opt_str_jsonv(v.redirect_url)),
        ("link"@, opt_str_jsonv(v.link)),
        ("form"@, opt_str_jsonv(v.form)),
        ("approach"@, opt_str_jsonv(v.approach)),
        ("size"@, opt_int_jsonv(v.size)),
    ];
    assert forall|q: int| 0 <= q < 7 implies crate::json::wf(#[trigger] f[q].1) by {
        if q == 0 {
            assert(f[0] == ("status"@, JsonV::Str(v.status)));
        } else if q == 1 {
            assert(f[1] == ("upload_link"@, opt_str_jsonv(v.upload_link)));
        } else if q == 2 {
            assert(f[2] == ("redirect_url"@, opt_str_jsonv(v.redirect_url)));
        } else if q == 3 {
            assert(f[3] == ("link"@, opt_str_jsonv(v.link)));
        } else if q == 4 {
            assert(f[4] == ("form"@, opt_str_jsonv(v.form)));
        } else if q == 5 {
            assert(f[5] == ("approach"@, opt_str_jsonv(v.approach)));
        } else if q == 6 {
            assert(f[6] == ("size"@, opt_int_jsonv(v.size)));
        }
    }
    assert(Upload::to_jsonv_spec(v) == JsonV::Obj(f));
}

/// A well-formed record encodes to a well-formed JSON value.
pub proof fn lemma_transcode_jsonv_wf(v: TranscodeV)
    requires
        v.wf(),
    ensures
        crate::json::wf(Transcode::to_jsonv_spec(v)),
{
    let f = seq![
        ("status"@, JsonV::Str(v.status)),
    ];
    assert forall|q: int| 0 <= q < 1 implies crate::json::wf(#[trigger] f[q].1) by {
        if q == 0 {
            assert(f[0] == ("status"@, JsonV::Str(v.status)));
        }
    }
    assert(Transcode::to_jsonv_spec(v) == JsonV::Obj(f));
}

/// A well-formed record encodes to a well-formed JSON value.
pub proof fn lemma_privacy_jsonv_wf(v: PrivacyV)
    requires
        v.wf(),
    ensures
        crate::json::wf(Privacy::to_jsonv_spec(v)),
{
    let f = seq![
        ("view"@, JsonV::Str(v.view)),
        ("comments"@, JsonV::Str(v.comments)),
        ("embed"@, JsonV::Str(v.embed)),
        ("download"@, JsonV::Bool(v.download)),
        ("add"@, JsonV::Bool(v.add)),
        ("join"@, opt_str_jsonv(v.join)),
        ("videos"@, opt_str_jsonv(v.videos)),
        ("forums"@, opt_str_jsonv(v.forums)),
        ("invite"@, opt_str_jsonv(v.invite)),
    ];
    assert forall|q: int| 0 <= q < 9 implies crate::json::wf(#[trigger] f[q].1) by {
        if q == 0 {
            assert(f[0] == ("view"@, JsonV::Str(v.view)));
        } else if q == 1 {
            assert(f[1] == ("comments"@, JsonV::Str(v.comments)));
        } else if q == 2 {
            assert(f[2] == ("embed"@, JsonV::Str(v.embed)));
        } else if q == 3 {
            assert(f[3] == ("download"@, JsonV::Bool(v.download)));
        } else if q == 4 {
            assert(f[4] == ("add"@, JsonV::Bool(v.add)));
        } else if q == 5 {
            assert(f[5] == ("join"@, opt_str_jsonv(v.join)));
        } else if q == 6 {
            assert(f[6] == ("videos"@, opt_str_jsonv(v.videos)));
        } else if q == 7 {
            assert(f[7] == ("forums"@, opt_str_jsonv(v.forums)));
        } else if q == 8 {
            assert(f[8] == ("invite"@, opt_str_jsonv(v.invite)));
        }
    }
    assert(Privacy::to_jsonv_spec(v) == JsonV::Obj(f));
}

/// A well-formed record encodes to a well-formed JSON value.
pub proof fn lemma_category_jsonv_wf(v: CategoryV)
    requires
        v.wf(),
    ensures
        crate::json::wf(Category::to_jsonv_spec(v)),
{
    let f = seq![
        ("uri"@, JsonV::Str(v.uri)),
        ("link"@, JsonV::Str(v.link)),
        ("name"@, JsonV::Str(v.name)),
        ("top_level"@, JsonV::Bool(v.top_level)),
        ("pictures"@, Pictures::to_jsonv_spec(v.pictures)),
        ("last_video_featured_time"@, JsonV::Str(v.last_video_featured_time)),
        ("parent"@, SubCategory::to_jsonv_spec(v.parent)),
        ("subcategories"@, JsonV::Arr(items_jsonv_spec::<SubCategory>(v.subcategories))),
        ("resource_key"@, JsonV::Str(v.resource_key)),
    ];
    lemma_pictures_jsonv_wf(v.pictures);
    lemma_sub_category_jsonv_wf(v.parent);
    assert forall|i: int| 0 <= i < v.subcategories.len() implies crate::json::wf(
        SubCategory::to_jsonv_spec(#[trigger] v.subcategories[i])) by {
        lemma_sub_category_jsonv_wf(v.subcategories[i]);
    }
    lemma_items_jsonv_wf::<SubCategory>(v.subcategories);
    assert forall|q: int| 0 <= q < 9 implies crate::json::wf(#[trigger] f[q].1) by {
        if q == 0 {
            assert(f[0] == ("uri"@, JsonV::Str(v.uri)));
        } else if q == 1 {
            assert(f[1] == ("link"@, JsonV::Str(v.link)));
        } else if q == 2 {
            assert(f[2] == ("name"@, JsonV::Str(v.name)));
        } else if q == 3 {
            assert(f[3] == ("top_level"@, JsonV::Bool(v.top_level)));
        } else if q == 4 {
            assert(f[4] == ("pictures"@, Pictures::to_jsonv_spec(v.pictures)));
        } else if q == 5 {
            assert(f[5] == ("last_video_featured_time"@, JsonV::Str(v.last_video_featured_time)));
        } else if q == 6 {
            assert(f[6] == ("parent"@, SubCategory::to_jsonv_spec(v.parent)));
        } else if q == 7 {
            assert(f[7] == ("subcategories"@, JsonV::Arr(items_jsonv_spec::<SubCategory>(v.subcategories))));
        } else if q == 8 {
            assert(f[8] == ("resource_key"@, JsonV::Str(v.resource_key)));
        }
    }
    assert(Category::to_jsonv_spec(v) == JsonV::Obj(f));
}

/// A well-formed record encodes to a well-formed JSON value.
pub proof fn lemma_video_jsonv_wf(v: VideoV)
    requires
        v.wf(),
    ensures
        crate::json::wf(Video::to_jsonv_spec(v)),
{
    let f = seq![
        ("uri"@, JsonV::Str(v.uri)),
        ("name"@, JsonV::Str(v.name)),
        ("description"@, opt_str_jsonv(v.description)),
        ("link"@, JsonV::Str(v.link)),
        ("duration"@, JsonV::Int(v.duration)),
        ("width"@, JsonV::Int(v.width)),
        ("height"@, JsonV::Int(v.height)),
        ("language"@, JsonV::Str(v.language)),
        ("created_time"@, JsonV::Str(v.created_time)),
        ("modified_time"@, JsonV::Str(v.modified_time)),
        ("release_time"@, JsonV::Str(v.release_time)),
        ("content_rating"@, JsonV::Arr(items_jsonv_spec::<String>(v.content_rating))),
        ("license"@, opt_str_jsonv(v.license)),
        ("privacy"@, Privacy::to_jsonv_spec(v.privacy)),
        ("pictures"@, Pictures::to_jsonv_spec(v.pictures)),
        ("tags"@, JsonV::Arr(items_jsonv_spec::<Tag>(v.tags))),
        ("stats"@, Stats::to_jsonv_spec(v.stats)),
        ("categories"@, JsonV::Arr(items_jsonv_spec::<Category>(v.categories))),
        ("user"@, User::to_jsonv_spec(v.user)),
        ("status"@, JsonV::Str(v.status)),
        ("resource_key"@, JsonV::Str(v.resource_key)),
        ("embed_presets"@, opt_rec_jsonv::<EmbedPresets>(v.embed_presets)),
        ("upload"@, Upload::to_jsonv_spec(v.upload)),
        ("transcode"@, Transcode::to_jsonv_spec(v.transcode)),
    ];
    assert forall|i: int| 0 <= i < v.content_rating.len() implies crate::json::wf(
        String::to_jsonv_spec(#[trigger] v.content_rating[i])) by {}
    lemma_items_jsonv_wf::<String>(v.content_rating);
    lemma_privacy_jsonv_wf(v.privacy);
    lemma_pictures_jsonv_wf(v.pictures);
    assert forall|i: int| 0 <= i < v.tags.len() implies crate::json::wf(
        Tag::to_jsonv_spec(#[trigger] v.tags[i])) by {
        lemma_tag_jsonv_wf(v.tags[i]);
    }
    lemma_items_jsonv_wf::<Tag>(v.tags);
    lemma_stats_jsonv_wf(v.stats);
    assert forall|i: int| 0 <= i < v.categories.len() implies crate::json::wf(
        Category::to_jsonv_spec(#[trigger] v.categories[i])) by {
        lemma_category_jsonv_wf(v.categories[i]);
    }
    lemma_items_jsonv_wf::<Category>(v.categories);
    lemma_user_jsonv_wf(v.user);
    match v.embed_presets {
        Some(x) => {
            lemma_embed_presets_jsonv_wf(x);
        },
        None => {},
    }
    lemma_upload_jsonv_wf(v.upload);
    lemma_transcode_jsonv_wf(v.transcode);
    assert forall|q: int| 0 <= q < 24 implies crate::json::wf(#[trigger] f[q].1) by {
        if q == 0 {
            assert(f[0] == ("uri"@, JsonV::Str(v.uri)));
        } else if q == 1 {
            assert(f[1] == ("name"@, JsonV::Str(v.name)));
        } else if q == 2 {
            assert(f[2] == ("description"@, opt_str_jsonv(v.description)));
        } else if q == 3 {
            assert(f[3] == ("link"@, JsonV::Str(v.link)));
        } else if q == 4 {
            assert(f[4] == ("duration"@, JsonV::Int(v.duration)));
        } else if q == 5 {
            assert(f[5] == ("width"@, JsonV::Int(v.width)));
        } else if q == 6 {
            assert(f[6] == ("height"@, JsonV::Int(v.height)));
        } else if q == 7 {
            assert(f[7] == ("language"@, JsonV::Str(v.language)));
        } else if q == 8 {
            assert(f[8] == ("created_time"@, JsonV::Str(v.created_time)));
        } else if q == 9 {
            assert(f[9] == ("modified_time"@, JsonV::Str(v.modified_time)));
        } else if q == 10 {
            assert(f[10] == ("release_time"@, JsonV::Str(v.release_time)));
        } else if q == 11 {
            assert(f[11] == ("content_rating"@, JsonV::Arr(items_jsonv_spec::<String>(v.content_rating))));
        } else if q == 12 {
            assert(f[12] == ("license"@, opt_str_jsonv(v.license)));
        } else if q == 13 {
            assert(f[13] == ("privacy"@, Privacy::to_jsonv_spec(v.privacy)));
        } else if q == 14 {
            assert(f[14] == ("pictures"@, Pictures::to_jsonv_spec(v.pictures)));
        } else if q == 15 {
            assert(f[15] == ("tags"@, JsonV::Arr(items_jsonv_spec::<Tag>(v.tags))));
        } else if q == 16 {
            assert(f[16] == ("stats"@, Stats::to_jsonv_spec(v.stats)));
        } else if q == 17 {
            assert(f[17] == ("categories"@, JsonV::Arr(items_jsonv_spec::<Category>(v.categories))));
        } else if q == 18 {
            assert(f[18] == ("user"@, User::to_jsonv_spec(v.user)));
        } else if q == 19 {
            assert(f[19] == ("status"@, JsonV::Str(v.status)));
        } else if q == 20 {
            assert(f[20] == ("resource_key"@, JsonV::Str(v.resource_key)));
        } else if q == 21 {
            assert(f[21] == ("embed_presets"@, opt_rec_jsonv::<EmbedPresets>(v.embed_presets)));
        } else if q == 22 {
            assert(f[22] == ("upload"@, Upload::to_jsonv_spec(v.upload)));
        } else if q == 23 {
            assert(f[23] == ("transcode"@, Transcode::to_jsonv_spec(v.transcode)));
        }
    }
    assert(Video::to_jsonv_spec(v) == JsonV::Obj(f));
}

/// The whole way there and back: a video serialized to JSON text parses
/// back to the same tree, and that tree decodes to the same record, field
/// for field, renamed fields included.
pub proof fn lemma_video_text_roundtrip(v: VideoV)
    requires
        v.wf(),
    ensures
        parse_text(crate::json::ser(Video::to_jsonv_spec(v))) == Some(Video::to_jsonv_spec(v)),
        Video::of_jsonv_spec(Video::to_jsonv_spec(v)) == Some(v),
{
    lemma_video_jsonv_wf(v);
    crate::json::lemma_text_roundtrip(Video::to_jsonv_spec(v));
    lemma_video_roundtrip(v);
}

} // verus!

