//! The user resource: its records and the service fetching them.

use vstd::prelude::*;
use crate::client::{Transport, BASE_URL};
use crate::error::Error;
use crate::json::{
    as_bool, as_int, as_opt_str, as_str, find_field, from_text, lemma_find_field_at, get_bool, get_i32, get_opt_str,
    get_str, lemma_views_of_fields_push, parse_text, views_of_fields, Json, JsonV,
};
use crate::records::{
    get_list, get_rec, items_jsonv_spec, lemma_items_jsonv_wf, lemma_items_roundtrip,
    list_of_field, list_to_json,
    opt_str_jsonv, opt_str_to_json, opt_view, rec_of_field, views_of_list, JsonRecord,
};
use crate::service::{opt_str_view, ApiRequest, Method, Service};

verus! {

broadcast use vstd::string::group_string_axioms;

pub struct WebsiteV {
    pub name: Seq<char>,
    pub link: Seq<char>,
    pub description: Seq<char>,
}

impl WebsiteV {
    /// No numeric field: every value is well formed.
    pub open spec fn wf(self) -> bool {
        true
    }
}

/// A web site of a user's profile.
#[derive(Debug, Clone, PartialEq)]
pub struct Website {
    pub name: String,
    pub link: String,
    pub description: String,
}

impl View for Website {
    type V = WebsiteV;

    open spec fn view(&self) -> WebsiteV {
        WebsiteV { name: self.name@, link: self.link@, description: self.description@ }
    }
}

impl JsonRecord for Website {
    open spec fn to_jsonv_spec(vv: WebsiteV) -> JsonV {
        JsonV::Obj(
            seq![
                ("name"@, JsonV::Str(vv.name)),
                ("link"@, JsonV::Str(vv.link)),
                ("description"@, JsonV::Str(vv.description)),
            ],
        )
    }

    open spec fn of_jsonv_spec(j: JsonV) -> Option<WebsiteV> {
        match j {
            JsonV::Obj(f) => {
                let name = as_str(find_field(f, "name"@));
                let link = as_str(find_field(f, "link"@));
                let description = as_str(find_field(f, "description"@));
                if name is Some && link is Some && description is Some {
                    Some(WebsiteV { name: name->0, link: link->0, description: description->0 })
                } else {
                    None
                }
            },
            _ => None,
        }
    }

    fn to_json(&self) -> (r: Json)
        ensures
            r@ == Self::to_jsonv_spec(self@),
    {
        let mut f: Vec<(String, Json)> = Vec::new();
        let p = ("name".to_owned(), Json::Str(self.name.clone()));
        proof {
            lemma_views_of_fields_push(f@, p);
        }
        f.push(p);
        let p = ("link".to_owned(), Json::Str(self.link.clone()));
        proof {
            lemma_views_of_fields_push(f@, p);
        }
        f.push(p);
        let p = ("description".to_owned(), Json::Str(self.description.clone()));
        proof {
            lemma_views_of_fields_push(f@, p);
        }
        f.push(p);
        proof {
            assert(views_of_fields(f@) =~= seq![
                ("name"@, JsonV::Str(self.name@)),
                ("link"@, JsonV::Str(self.link@)),
                ("description"@, JsonV::Str(self.description@)),
            ]);
        }
        Json::Obj(f)
    }

    fn from_json(j: &Json) -> (r: Option<Website>)
        ensures
            match r {
                Some(x) => Self::of_jsonv_spec(j@) == Some(x@),
                None => Self::of_jsonv_spec(j@) is None,
            },
    {
        let fields = match j {
            Json::Obj(f) => f,
            _ => {
                return None;
            },
        };
        let name = match get_str(fields, "name") {
            Some(s) => s,
            None => {
                return None;
            },
        };
        let link = match get_str(fields, "link") {
            Some(s) => s,
            None => {
                return None;
            },
        };
        let description = match get_str(fields, "description") {
            Some(s) => s,
            None => {
                return None;
            },
        };
        Some(Website { name, link, description })
    }
}

/// A website decodes back from its own encoding, field for field.
pub proof fn lemma_website_roundtrip(v: WebsiteV)
    ensures
        Website::of_jsonv_spec(Website::to_jsonv_spec(v)) == Some(v),
{
    reveal_strlit("name");
    reveal_strlit("link");
    reveal_strlit("description");
    reveal_with_fuel(find_field, 6);
    let f = seq![
        ("name"@, JsonV::Str(v.name)),
        ("link"@, JsonV::Str(v.link)),
        ("description"@, JsonV::Str(v.description)),
    ];
    assert(f.drop_first() =~= seq![
        ("link"@, JsonV::Str(v.link)),
        ("description"@, JsonV::Str(v.description)),
    ]);
    assert(f.drop_first().drop_first() =~= seq![("description"@, JsonV::Str(v.description))]);
    assert("name"@[0] == 'n' && "link"@[0] == 'l' && "description"@[0] == 'd');
    assert("name"@ != "link"@);
    assert("name"@ != "description"@);
    assert("link"@ != "description"@);
    assert(find_field(f, "name"@) == Some(JsonV::Str(v.name)));
    assert(find_field(f, "link"@) == Some(JsonV::Str(v.link)));
    assert(find_field(f, "description"@) == Some(JsonV::Str(v.description)));
}

pub struct PictureSizeV {
    pub width: int,
    pub height: int,
    pub link: Seq<char>,
    pub link_with_play_button: Option<Seq<char>>,
}

impl PictureSizeV {
    /// Numeric fields fit their machine type, nested records likewise.
    pub open spec fn wf(self) -> bool {
        &&& i32::MIN <= self.width <= i32::MAX
        &&& i32::MIN <= self.height <= i32::MAX
    }
}

/// One rendition of a picture.
#[derive(Debug, Clone, PartialEq)]
pub struct PictureSize {
    pub width: i32,
    pub height: i32,
    pub link: String,
    pub link_with_play_button: Option<String>,
}

impl View for PictureSize {
    type V = PictureSizeV;

    open spec fn view(&self) -> PictureSizeV {
        PictureSizeV {
            width: self.width as int,
            height: self.height as int,
            link: self.link@,
            link_with_play_button: opt_view(self.link_with_play_button),
        }
    }
}

impl JsonRecord for PictureSize {
    open spec fn to_jsonv_spec(vv: PictureSizeV) -> JsonV {
        JsonV::Obj(
            seq![
                ("width"@, JsonV::Int(vv.width)),
                ("height"@, JsonV::Int(vv.height)),
                ("link"@, JsonV::Str(vv.link)),
                ("link_with_play_button"@, opt_str_jsonv(vv.link_with_play_button)),
            ],
        )
    }

    open spec fn of_jsonv_spec(j: JsonV) -> Option<PictureSizeV> {
        match j {
            JsonV::Obj(f) => {
                let width = as_int(find_field(f, "width"@));
                let height = as_int(find_field(f, "height"@));
                let link = as_str(find_field(f, "link"@));
                let link_with_play_button = as_opt_str(find_field(f, "link_with_play_button"@));
                if width is Some && i32::MIN <= width->0 <= i32::MAX && height is Some && i32::MIN <= height->0 <= i32::MAX && link is Some && link_with_play_button is Some {
                    Some(
                        PictureSizeV {
                            width: width->0,
                            height: height->0,
                            link: link->0,
                            link_with_play_button: link_with_play_button->0,
                        },
                    )
                } else {
                    None
                }
            },
            _ => None,
        }
    }

    fn to_json(&self) -> (r: Json)
        ensures
            r@ == Self::to_jsonv_spec(self@),
    {
        let mut f: Vec<(String, Json)> = Vec::new();
        let p = ("width".to_owned(), Json::Int(self.width as i64));
        proof {
            lemma_views_of_fields_push(f@, p);
        }
        f.push(p);
        let p = ("height".to_owned(), Json::Int(self.height as i64));
        proof {
            lemma_views_of_fields_push(f@, p);
        }
        f.push(p);
        let p = ("link".to_owned(), Json::Str(self.link.clone()));
        proof {
            lemma_views_of_fields_push(f@, p);
        }
        f.push(p);
        let p = ("link_with_play_button".to_owned(), opt_str_to_json(&self.link_with_play_button));
        proof {
            lemma_views_of_fields_push(f@, p);
        }
        f.push(p);
        proof {
            assert(views_of_fields(f@) =~= seq![
                ("width"@, JsonV::Int(self@.width)),
                ("height"@, JsonV::Int(self@.height)),
                ("link"@, JsonV::Str(self@.link)),
                ("link_with_play_button"@, opt_str_jsonv(self@.link_with_play_button)),
            ]);
        }
        Json::Obj(f)
    }

    fn from_json(j: &Json) -> (r: Option<PictureSize>)
        ensures
            match r {
                Some(x) => Self::of_jsonv_spec(j@) == Some(x@),
                None => Self::of_jsonv_spec(j@) is None,
            },
    {
        let fields = match j {
            Json::Obj(f) => f,
            _ => {
                return None;
            },
        };
        let width = match get_i32(fields, "width") {
            Some(v) => v,
            None => {
                return None;
            },
        };
        let height = match get_i32(fields, "height") {
            Some(v) => v,
            None => {
                return None;
            },
        };
        let link = match get_str(fields, "link") {
            Some(v) => v,
            None => {
                return None;
            },
        };
        let link_with_play_button = match get_opt_str(fields, "link_with_play_button") {
            Some(v) => v,
            None => {
                return None;
            },
        };
        Some(PictureSize { width, height, link, link_with_play_button })
    }
}

/// The record decodes back from its own encoding, field for field.
pub proof fn lemma_picture_size_roundtrip(v: PictureSizeV)
    requires
        v.wf(),
    ensures
        PictureSize::of_jsonv_spec(PictureSize::to_jsonv_spec(v)) == Some(v),
{
    reveal_strlit("height");
    reveal_strlit("link");
    reveal_strlit("link_with_play_button");
    reveal_strlit("width");
    assert("height"@.len() == 6);
    assert("link"@.len() == 4);
    assert("link_with_play_button"@.len() == 21);
    assert("width"@.len() == 5);
    let f = seq![
        ("width"@, JsonV::Int(v.width)),
        ("height"@, JsonV::Int(v.height)),
        ("link"@, JsonV::Str(v.link)),
        ("link_with_play_button"@, opt_str_jsonv(v.link_with_play_button)),
    ];
    assert(find_field(f, "width"@) == Some(JsonV::Int(v.width))) by {
        assert(f[0].0 == "width"@);
        assert forall|q: int| 0 <= q < 0 implies (#[trigger] f[q]).0 != "width"@ by {}
        lemma_find_field_at(f, "width"@, 0);
    }
    assert(find_field(f, "height"@) == Some(JsonV::Int(v.height))) by {
        assert(f[1].0 == "height"@);
        assert forall|q: int| 0 <= q < 1 implies (#[trigger] f[q]).0 != "height"@ by {}
        lemma_find_field_at(f, "height"@, 1);
    }
    assert(find_field(f, "link"@) == Some(JsonV::Str(v.link))) by {
        assert(f[2].0 == "link"@);
        assert forall|q: int| 0 <= q < 2 implies (#[trigger] f[q]).0 != "link"@ by {}
        lemma_find_field_at(f, "link"@, 2);
    }
    assert(find_field(f, "link_with_play_button"@) == Some(opt_str_jsonv(v.link_with_play_button))) by {
        assert(f[3].0 == "link_with_play_button"@);
        assert forall|q: int| 0 <= q < 3 implies (#[trigger] f[q]).0 != "link_with_play_button"@ by {}
        lemma_find_field_at(f, "link_with_play_button"@, 3);
    }
}

pub struct PicturesV {
    pub uri: Option<Seq<char>>,
    pub active: bool,
    pub ty: Seq<char>,
    pub sizes: Seq<PictureSizeV>,
    pub link: Option<Seq<char>>,
    pub resource_key: Seq<char>,
}

impl PicturesV {
    /// Numeric fields fit their machine type, nested records likewise.
    pub open spec fn wf(self) -> bool {
        (forall|i: int| 0 <= i < self.sizes.len() ==> (#[trigger] self.sizes[i]).wf())
    }
}

/// A picture set and its renditions.
#[derive(Debug, Clone, PartialEq)]
pub struct Pictures {
    pub uri: Option<String>,
    pub active: bool,
    pub ty: String,
    pub sizes: Vec<PictureSize>,
    pub link: Option<String>,
    pub resource_key: String,
}

impl View for Pictures {
    type V = PicturesV;

    open spec fn view(&self) -> PicturesV {
        PicturesV {
            uri: opt_view(self.uri),
            active: self.active,
            ty: self.ty@,
            sizes: views_of_list(self.sizes@),
            link: opt_view(self.link),
            resource_key: self.resource_key@,
        }
    }
}

impl JsonRecord for Pictures {
    open spec fn to_jsonv_spec(vv: PicturesV) -> JsonV {
        JsonV::Obj(
            seq![
                ("uri"@, opt_str_jsonv(vv.uri)),
                ("active"@, JsonV::Bool(vv.active)),
                ("type"@, JsonV::Str(vv.ty)),
                ("sizes"@, JsonV::Arr(items_jsonv_spec::<PictureSize>(vv.sizes))),
                ("link"@, opt_str_jsonv(vv.link)),
                ("resource_key"@, JsonV::Str(vv.resource_key)),
            ],
        )
    }

    open spec fn of_jsonv_spec(j: JsonV) -> Option<PicturesV> {
        match j {
            JsonV::Obj(f) => {
                let uri = as_opt_str(find_field(f, "uri"@));
                let active = as_bool(find_field(f, "active"@));
                let ty = as_str(find_field(f, "type"@));
                let sizes = list_of_field::<PictureSize>(f, "sizes"@);
                let link = as_opt_str(find_field(f, "link"@));
                let resource_key = as_str(find_field(f, "resource_key"@));
                if uri is Some && active is Some && ty is Some && sizes is Some && link is Some && resource_key is Some {
                    Some(
                        PicturesV {
                            uri: uri->0,
                            active: active->0,
                            ty: ty->0,
                            sizes: sizes->0,
                            link: link->0,
                            resource_key: resource_key->0,
                        },
                    )
                } else {
                    None
                }
            },
            _ => None,
        }
    }

    fn to_json(&self) -> (r: Json)
        ensures
            r@ == Self::to_jsonv_spec(self@),
    {
        let mut f: Vec<(String, Json)> = Vec::new();
        let p = ("uri".to_owned(), opt_str_to_json(&self.uri));
        proof {
            lemma_views_of_fields_push(f@, p);
        }
        f.push(p);
        let p = ("active".to_owned(), Json::Bool(self.active));
        proof {
            lemma_views_of_fields_push(f@, p);
        }
        f.push(p);
        let p = ("type".to_owned(), Json::Str(self.ty.clone()));
        proof {
            lemma_views_of_fields_push(f@, p);
        }
        f.push(p);
        let p = ("sizes".to_owned(), Json::Arr(list_to_json::<PictureSize>(&self.sizes)));
        proof {
            lemma_views_of_fields_push(f@, p);
        }
        f.push(p);
        let p = ("link".to_owned(), opt_str_to_json(&self.link));
        proof {
            lemma_views_of_fields_push(f@, p);
        }
        f.push(p);
        let p = ("resource_key".to_owned(), Json::Str(self.resource_key.clone()));
        proof {
            lemma_views_of_fields_push(f@, p);
        }
        f.push(p);
        proof {
            assert(views_of_fields(f@) =~= seq![
                ("uri"@, opt_str_jsonv(self@.uri)),
                ("active"@, JsonV::Bool(self@.active)),
                ("type"@, JsonV::Str(self@.ty)),
                ("sizes"@, JsonV::Arr(items_jsonv_spec::<PictureSize>(self@.sizes))),
                ("link"@, opt_str_jsonv(self@.link)),
                ("resource_key"@, JsonV::Str(self@.resource_key)),
            ]);
        }
        Json::Obj(f)
    }

    fn from_json(j: &Json) -> (r: Option<Pictures>)
        ensures
            match r {
                Some(x) => Self::of_jsonv_spec(j@) == Some(x@),
                None => Self::of_jsonv_spec(j@) is None,
            },
    {
        let fields = match j {
            Json::Obj(f) => f,
            _ => {
                return None;
            },
        };
        let uri = match get_opt_str(fields, "uri") {
            Some(v) => v,
            None => {
                return None;
            },
        };
        let active = match get_bool(fields, "active") {
            Some(v) => v,
            None => {
                return None;
            },
        };
        let ty = match get_str(fields, "type") {
            Some(v) => v,
            None => {
                return None;
            },
        };
        let sizes = match get_list::<PictureSize>(fields, "sizes") {
            Some(v) => v,
            None => {
                return None;
            },
        };
        let link = match get_opt_str(fields, "link") {
            Some(v) => v,
            None => {
                return None;
            },
        };
        let resource_key = match get_str(fields, "resource_key") {
            Some(v) => v,
            None => {
                return None;
            },
        };
        Some(Pictures { uri, active, ty, sizes, link, resource_key })
    }
}

/// The record decodes back from its own encoding, field for field.
pub proof fn lemma_pictures_roundtrip(v: PicturesV)
    requires
        v.wf(),
    ensures
        Pictures::of_jsonv_spec(Pictures::to_jsonv_spec(v)) == Some(v),
{
    reveal_strlit("active");
    reveal_strlit("link");
    reveal_strlit("resource_key");
    reveal_strlit("sizes");
    reveal_strlit("type");
    reveal_strlit("uri");
    assert("active"@.len() == 6);
    assert("link"@.len() == 4);
    assert("resource_key"@.len() == 12);
    assert("sizes"@.len() == 5);
    assert("type"@.len() == 4);
    assert("uri"@.len() == 3);
    let f = seq![
        ("uri"@, opt_str_jsonv(v.uri)),
        ("active"@, JsonV::Bool(v.active)),
        ("type"@, JsonV::Str(v.ty)),
        ("sizes"@, JsonV::Arr(items_jsonv_spec::<PictureSize>(v.sizes))),
        ("link"@, opt_str_jsonv(v.link)),
        ("resource_key"@, JsonV::Str(v.resource_key)),
    ];
    assert("type"@[0] == 't' && "link"@[0] == 'l');
    assert("type"@ != "link"@);
    assert forall|i: int| 0 <= i < v.sizes.len() implies PictureSize::of_jsonv_spec(
        PictureSize::to_jsonv_spec(#[trigger] v.sizes[i])) == Some(v.sizes[i]) by {
        lemma_picture_size_roundtrip(v.sizes[i]);
    }
    lemma_items_roundtrip::<PictureSize>(v.sizes);
    assert(find_field(f, "uri"@) == Some(opt_str_jsonv(v.uri))) by {
        assert(f[0].0 == "uri"@);
        assert forall|q: int| 0 <= q < 0 implies (#[trigger] f[q]).0 != "uri"@ by {}
        lemma_find_field_at(f, "uri"@, 0);
    }
    assert(find_field(f, "active"@) == Some(JsonV::Bool(v.active))) by {
        assert(f[1].0 == "active"@);
        assert forall|q: int| 0 <= q < 1 implies (#[trigger] f[q]).0 != "active"@ by {}
        lemma_find_field_at(f, "active"@, 1);
    }
    assert(find_field(f, "type"@) == Some(JsonV::Str(v.ty))) by {
        assert(f[2].0 == "type"@);
        assert forall|q: int| 0 <= q < 2 implies (#[trigger] f[q]).0 != "type"@ by {}
        lemma_find_field_at(f, "type"@, 2);
    }
    assert(find_field(f, "sizes"@) == Some(JsonV::Arr(items_jsonv_spec::<PictureSize>(v.sizes)))) by {
        assert(f[3].0 == "sizes"@);
        assert forall|q: int| 0 <= q < 3 implies (#[trigger] f[q]).0 != "sizes"@ by {}
        lemma_find_field_at(f, "sizes"@, 3);
    }
    assert(find_field(f, "link"@) == Some(opt_str_jsonv(v.link))) by {
        assert(f[4].0 == "link"@);
        assert forall|q: int| 0 <= q < 4 implies (#[trigger] f[q]).0 != "link"@ by {}
        lemma_find_field_at(f, "link"@, 4);
    }
    assert(find_field(f, "resource_key"@) == Some(JsonV::Str(v.resource_key))) by {
        assert(f[5].0 == "resource_key"@);
        assert forall|q: int| 0 <= q < 5 implies (#[trigger] f[q]).0 != "resource_key"@ by {}
        lemma_find_field_at(f, "resource_key"@, 5);
    }
}

pub struct UserV {
    pub uri: Seq<char>,
    pub name: Seq<char>,
    pub link: Seq<char>,
    pub location: Seq<char>,
    pub bio: Option<Seq<char>>,
    pub created_time: Seq<char>,
    pub account: Seq<char>,
    pub pictures: PicturesV,
    pub websites: Seq<WebsiteV>,
    pub content_filter: Seq<Seq<char>>,
    pub resource_key: Seq<char>,
}

impl UserV {
    /// Numeric fields fit their machine type, nested records likewise.
    pub open spec fn wf(self) -> bool {
        &&& self.pictures.wf()
        &&& (forall|i: int| 0 <= i < self.websites.len() ==> (#[trigger] self.websites[i]).wf())
    }
}

/// A user's profile as the remote API reports it.
#[derive(Debug, Clone, PartialEq)]
pub struct User {
    pub uri: String,
    pub name: String,
    pub link: String,
    pub location: String,
    pub bio: Option<String>,
    pub created_time: String,
    pub account: String,
    pub pictures: Pictures,
    pub websites: Vec<Website>,
    pub content_filter: Vec<String>,
    pub resource_key: String,
}

impl View for User {
    type V = UserV;

    open spec fn view(&self) -> UserV {
        UserV {
            uri: self.uri@,
            name: self.name@,
            link: self.link@,
            location: self.location@,
            bio: opt_view(self.bio),
            created_time: self.created_time@,
            account: self.account@,
            pictures: self.pictures@,
            websites: views_of_list(self.websites@),
            content_filter: views_of_list(self.content_filter@),
            resource_key: self.resource_key@,
        }
    }
}

impl JsonRecord for User {
    open spec fn to_jsonv_spec(vv: UserV) -> JsonV {
        JsonV::Obj(
            seq![
                ("uri"@, JsonV::Str(vv.uri)),
                ("name"@, JsonV::Str(vv.name)),
                ("link"@, JsonV::Str(vv.link)),
                ("location"@, JsonV::Str(vv.location)),
                ("bio"@, opt_str_jsonv(vv.bio)),
                ("created_time"@, JsonV::Str(vv.created_time)),
                ("account"@, JsonV::Str(vv.account)),
                ("pictures"@, Pictures::to_jsonv_spec(vv.pictures)),
                ("websites"@, JsonV::Arr(items_jsonv_spec::<Website>(vv.websites))),
                ("content_filter"@, JsonV::Arr(items_jsonv_spec::<String>(vv.content_filter))),
                ("resource_key"@, JsonV::Str(vv.resource_key)),
            ],
        )
    }

    open spec fn of_jsonv_spec(j: JsonV) -> Option<UserV> {
        match j {
            JsonV::Obj(f) => {
                let uri = as_str(find_field(f, "uri"@));
                let name = as_str(find_field(f, "name"@));
                let link = as_str(find_field(f, "link"@));
                let location = as_str(find_field(f, "location"@));
                let bio = as_opt_str(find_field(f, "bio"@));
                let created_time = as_str(find_field(f, "created_time"@));
                let account = as_str(find_field(f, "account"@));
                let pictures = rec_of_field::<Pictures>(f, "pictures"@);
                let websites = list_of_field::<Website>(f, "websites"@);
                let content_filter = list_of_field::<String>(f, "content_filter"@);
                let resource_key = as_str(find_field(f, "resource_key"@));
                if uri is Some && name is Some && link is Some && location is Some && bio is Some && created_time is Some && account is Some && pictures is Some && websites is Some && content_filter is Some && resource_key is Some {
                    Some(
                        UserV {
                            uri: uri->0,
                            name: name->0,
                            link: link->0,
                            location: location->0,
                            bio: bio->0,
                            created_time: created_time->0,
                            account: account->0,
                            pictures: pictures->0,
                            websites: websites->0,
                            content_filter: content_filter->0,
                            resource_key: resource_key->0,
                        },
                    )
                } else {
                    None
                }
            },
            _ => None,
        }
    }

    fn to_json(&self) -> (r: Json)
        ensures
            r@ == Self::to_jsonv_spec(self@),
    {
        let mut f: Vec<(String, Json)> = Vec::new();
        let p = ("uri".to_owned(), Json::Str(self.uri.clone()));
        proof {
            lemma_views_of_fields_push(f@, p);
        }
        f.push(p);
        let p = ("name".to_owned(), Json::Str(self.name.clone()));
        proof {
            lemma_views_of_fields_push(f@, p);
        }
        f.push(p);
        let p = ("link".to_owned(), Json::Str(self.link.clone()));
        proof {
            lemma_views_of_fields_push(f@, p);
        }
        f.push(p);
        let p = ("location".to_owned(), Json::Str(self.location.clone()));
        proof {
            lemma_views_of_fields_push(f@, p);
        }
        f.push(p);
        let p = ("bio".to_owned(), opt_str_to_json(&self.bio));
        proof {
            lemma_views_of_fields_push(f@, p);
        }
        f.push(p);
        let p = ("created_time".to_owned(), Json::Str(self.created_time.clone()));
        proof {
            lemma_views_of_fields_push(f@, p);
        }
        f.push(p);
        let p = ("account".to_owned(), Json::Str(self.account.clone()));
        proof {
            lemma_views_of_fields_push(f@, p);
        }
        f.push(p);
        let p = ("pictures".to_owned(), self.pictures.to_json());
        proof {
            lemma_views_of_fields_push(f@, p);
        }
        f.push(p);
        let p = ("websites".to_owned(), Json::Arr(list_to_json::<Website>(&self.websites)));
        proof {
            lemma_views_of_fields_push(f@, p);
        }
        f.push(p);
        let p = ("content_filter".to_owned(), Json::Arr(list_to_json::<String>(&self.content_filter)));
        proof {
            lemma_views_of_fields_push(f@, p);
        }
        f.push(p);
        let p = ("resource_key".to_owned(), Json::Str(self.resource_key.clone()));
        proof {
            lemma_views_of_fields_push(f@, p);
        }
        f.push(p);
        proof {
            assert(views_of_fields(f@) =~= seq![
                ("uri"@, JsonV::Str(self@.uri)),
                ("name"@, JsonV::Str(self@.name)),
                ("link"@, JsonV::Str(self@.link)),
                ("location"@, JsonV::Str(self@.location)),
                ("bio"@, opt_str_jsonv(self@.bio)),
                ("created_time"@, JsonV::Str(self@.created_time)),
                ("account"@, JsonV::Str(self@.account)),
                ("pictures"@, Pictures::to_jsonv_spec(self@.pictures)),
                ("websites"@, JsonV::Arr(items_jsonv_spec::<Website>(self@.websites))),
                ("content_filter"@, JsonV::Arr(items_jsonv_spec::<String>(self@.content_filter))),
                ("resource_key"@, JsonV::Str(self@.resource_key)),
            ]);
        }
        Json::Obj(f)
    }

    fn from_json(j: &Json) -> (r: Option<User>)
        ensures
            match r {
                Some(x) => Self::of_jsonv_spec(j@) == Some(x@),
                None => Self::of_jsonv_spec(j@) is None,
            },
    {
        let fields = match j {
            Json::Obj(f) => f,
            _ => {
                return None;
            },
        };
        let uri = match get_str(fields, "uri") {
            Some(v) => v,
            None => {
                return None;
            },
        };
        let name = match get_str(fields, "name") {
            Some(v) => v,
            None => {
                return None;
            },
        };
        let link = match get_str(fields, "link") {
            Some(v) => v,
            None => {
                return None;
            },
        };
        let location = match get_str(fields, "location") {
            Some(v) => v,
            None => {
                return None;
            },
        };
        let bio = match get_opt_str(fields, "bio") {
            Some(v) => v,
            None => {
                return None;
            },
        };
        let created_time = match get_str(fields, "created_time") {
            Some(v) => v,
            None => {
                return None;
            },
        };
        let account = match get_str(fields, "account") {
            Some(v) => v,
            None => {
                return None;
            },
        };
        let pictures = match get_rec::<Pictures>(fields, "pictures") {
            Some(v) => v,
            None => {
                return None;
            },
        };
        let websites = match get_list::<Website>(fields, "websites") {
            Some(v) => v,
            None => {
                return None;
            },
        };
        let content_filter = match get_list::<String>(fields, "content_filter") {
            Some(v) => v,
            None => {
                return None;
            },
        };
        let resource_key = match get_str(fields, "resource_key") {
            Some(v) => v,
            None => {
                return None;
            },
        };
        Some(User { uri, name, link, location, bio, created_time, account, pictures, websites, content_filter, resource_key })
    }
}

/// The record decodes back from its own encoding, field for field.
pub proof fn lemma_user_roundtrip(v: UserV)
    requires
        v.wf(),
    ensures
        User::of_jsonv_spec(User::to_jsonv_spec(v)) == Some(v),
{
    reveal_strlit("account");
    reveal_strlit("bio");
    reveal_strlit("content_filter");
    reveal_strlit("created_time");
    reveal_strlit("link");
    reveal_strlit("location");
    reveal_strlit("name");
    reveal_strlit("pictures");
    reveal_strlit("resource_key");
    reveal_strlit("uri");
    reveal_strlit("websites");
    assert("account"@.len() == 7);
    assert("bio"@.len() == 3);
    assert("content_filter"@.len() == 14);
    assert("created_time"@.len() == 12);
    assert("link"@.len() == 4);
    assert("location"@.len() == 8);
    assert("name"@.len() == 4);
    assert("pictures"@.len() == 8);
    assert("resource_key"@.len() == 12);
    assert("uri"@.len() == 3);
    assert("websites"@.len() == 8);
    let f = seq![
        ("uri"@, JsonV::Str(v.uri)),
        ("name"@, JsonV::Str(v.name)),
        ("link"@, JsonV::Str(v.link)),
        ("location"@, JsonV::Str(v.location)),
        ("bio"@, opt_str_jsonv(v.bio)),
        ("created_time"@, JsonV::Str(v.created_time)),
        ("account"@, JsonV::Str(v.account)),
        ("pictures"@, Pictures::to_jsonv_spec(v.pictures)),
        ("websites"@, JsonV::Arr(items_jsonv_spec::<Website>(v.websites))),
        ("content_filter"@, JsonV::Arr(items_jsonv_spec::<String>(v.content_filter))),
        ("resource_key"@, JsonV::Str(v.resource_key)),
    ];
    assert("name"@[0] == 'n' && "link"@[0] == 'l');
    assert("name"@ != "link"@);
    assert("uri"@[0] == 'u' && "bio"@[0] == 'b');
    assert("uri"@ != "bio"@);
    assert("location"@[0] == 'l' && "pictures"@[0] == 'p');
    assert("location"@ != "pictures"@);
    assert("location"@[0] == 'l' && "websites"@[0] == 'w');
    assert("location"@ != "websites"@);
    assert("pictures"@[0] == 'p' && "websites"@[0] == 'w');
    assert("pictures"@ != "websites"@);
    assert("created_time"@[0] == 'c' && "resource_key"@[0] == 'r');
    assert("created_time"@ != "resource_key"@);
    lemma_pictures_roundtrip(v.pictures);
    assert forall|i: int| 0 <= i < v.websites.len() implies Website::of_jsonv_spec(
        Website::to_jsonv_spec(#[trigger] v.websites[i])) == Some(v.websites[i]) by {
        lemma_website_roundtrip(v.websites[i]);
    }
    lemma_items_roundtrip::<Website>(v.websites);
    assert forall|i: int| 0 <= i < v.content_filter.len() implies String::of_jsonv_spec(
        String::to_jsonv_spec(#[trigger] v.content_filter[i])) == Some(v.content_filter[i]) by {}
    lemma_items_roundtrip::<String>(v.content_filter);
    assert(find_field(f, "uri"@) == Some(JsonV::Str(v.uri))) by {
        assert(f[0].0 == "uri"@);
        assert forall|q: int| 0 <= q < 0 implies (#[trigger] f[q]).0 != "uri"@ by {}
        lemma_find_field_at(f, "uri"@, 0);
    }
    assert(find_field(f, "name"@) == Some(JsonV::Str(v.name))) by {
        assert(f[1].0 == "name"@);
        assert forall|q: int| 0 <= q < 1 implies (#[trigger] f[q]).0 != "name"@ by {}
        lemma_find_field_at(f, "name"@, 1);
    }
    assert(find_field(f, "link"@) == Some(JsonV::Str(v.link))) by {
        assert(f[2].0 == "link"@);
        assert forall|q: int| 0 <= q < 2 implies (#[trigger] f[q]).0 != "link"@ by {}
        lemma_find_field_at(f, "link"@, 2);
    }
    assert(find_field(f, "location"@) == Some(JsonV::Str(v.location))) by {
        assert(f[3].0 == "location"@);
        assert forall|q: int| 0 <= q < 3 implies (#[trigger] f[q]).0 != "location"@ by {}
        lemma_find_field_at(f, "location"@, 3);
    }
    assert(find_field(f, "bio"@) == Some(opt_str_jsonv(v.bio))) by {
        assert(f[4].0 == "bio"@);
        assert forall|q: int| 0 <= q < 4 implies (#[trigger] f[q]).0 != "bio"@ by {}
        lemma_find_field_at(f, "bio"@, 4);
    }
    assert(find_field(f, "created_time"@) == Some(JsonV::Str(v.created_time))) by {
        assert(f[5].0 == "created_time"@);
        assert forall|q: int| 0 <= q < 5 implies (#[trigger] f[q]).0 != "created_time"@ by {}
        lemma_find_field_at(f, "created_time"@, 5);
    }
    assert(find_field(f, "account"@) == Some(JsonV::Str(v.account))) by {
        assert(f[6].0 == "account"@);
        assert forall|q: int| 0 <= q < 6 implies (#[trigger] f[q]).0 != "account"@ by {}
        lemma_find_field_at(f, "account"@, 6);
    }
    assert(find_field(f, "pictures"@) == Some(Pictures::to_jsonv_spec(v.pictures))) by {
        assert(f[7].0 == "pictures"@);
        assert forall|q: int| 0 <= q < 7 implies (#[trigger] f[q]).0 != "pictures"@ by {}
        lemma_find_field_at(f, "pictures"@, 7);
    }
    assert(find_field(f, "websites"@) == Some(JsonV::Arr(items_jsonv_spec::<Website>(v.websites)))) by {
        assert(f[8].0 == "websites"@);
        assert forall|q: int| 0 <= q < 8 implies (#[trigger] f[q]).0 != "websites"@ by {}
        lemma_find_field_at(f, "websites"@, 8);
    }
    assert(find_field(f, "content_filter"@) == Some(JsonV::Arr(items_jsonv_spec::<String>(v.content_filter)))) by {
        assert(f[9].0 == "content_filter"@);
        assert forall|q: int| 0 <= q < 9 implies (#[trigger] f[q]).0 != "content_filter"@ by {}
        lemma_find_field_at(f, "content_filter"@, 9);
    }
    assert(find_field(f, "resource_key"@) == Some(JsonV::Str(v.resource_key))) by {
        assert(f[10].0 == "resource_key"@);
        assert forall|q: int| 0 <= q < 10 implies (#[trigger] f[q]).0 != "resource_key"@ by {}
        lemma_find_field_at(f, "resource_key"@, 10);
    }
}


/// The path for the user fetch: `users/{id}`, or `me` for the caller's own
/// profile.
pub open spec fn user_path_spec(uid: Option<Seq<char>>) -> Seq<char> {
    match uid {
        None => "me"@,
        Some(u) => "users/"@ + u,
    }
}

/// The user service: fetches one user's profile over the shared transport.
pub struct UserService {
    client: Transport,
}

impl Service for UserService {
    closed spec fn transport_spec(&self) -> Transport {
        self.client
    }

    fn client(&self) -> (r: &Transport)
        ensures
            *r == self.transport_spec(),
    {
        &self.client
    }
}

impl UserService {
    pub fn new(client: Transport) -> (r: UserService)
        ensures
            r.transport_spec() == client,
    {
        UserService { client }
    }

    /// The relative path this operation targets.
    pub fn get_path(maybe_uid: &Option<String>) -> (r: String)
        ensures
            r@ == user_path_spec(opt_str_view(*maybe_uid)),
    {
        match maybe_uid {
            None => "me".to_owned(),
            Some(uid) => {
                let mut s = String::new();
                s.append("users/");
                s.append(uid.as_str());
                s
            },
        }
    }

    /// The GET request for this operation, resolved against the base URL,
    /// with no body.
    pub fn get_request(&self, maybe_uid: &Option<String>) -> (r: Result<ApiRequest, Error>)
        ensures
            r matches Ok(req) ==> {
                &&& req.method == Method::Get
                &&& req.body is None
                &&& req.url@ == BASE_URL@ + user_path_spec(opt_str_view(*maybe_uid))
                &&& crate::service::url_parse_ok(req.url@)
            },
            r is Ok <==> crate::service::url_parse_ok(
                BASE_URL@ + user_path_spec(opt_str_view(*maybe_uid)),
            ),
            r matches Err(e) ==> e == Error::InvalidUrl,
    {
        let path = Self::get_path(maybe_uid);
        self.request_builder(Method::Get, path.as_str(), None)
    }

    /// The ready-to-send reqwest builder for this operation: the assembled
    /// request, made concrete against the shared transport.  Fails exactly
    /// when the resolved URL does not parse.
    pub fn get_builder(&self, maybe_uid: &Option<String>) -> (r: Result<
        reqwest::RequestBuilder,
        Error,
    >)
        ensures
            r is Ok <==> crate::service::url_parse_ok(
                BASE_URL@ + user_path_spec(opt_str_view(*maybe_uid)),
            ),
            r matches Err(e) ==> e == Error::InvalidUrl,
    {
        let req = match self.get_request(maybe_uid) {
            Ok(req) => req,
            Err(e) => {
                return Err(e);
            },
        };
        match self.client().reqwest_builder(&req) {
            Ok(rb) => Ok(rb),
            Err(e) => {
                return Err(e);
            },
        }
    }

    /// What the operation returns once the endpoint has answered: a status
    /// outside 200..=299 is that status's failure; otherwise the body must
    /// be the JSON of one user record.
    pub fn parse_response(status: u16, body: &str) -> (r: Result<User, Error>)
        ensures
            !(200 <= status < 300) ==> r == Err::<User, Error>(Error::Status(status)),
            200 <= status < 300 ==> match parse_text(body@) {
                Some(jv) => match User::of_jsonv_spec(jv) {
                    Some(uv) => r matches Ok(u) && u@ == uv,
                    None => r == Err::<User, Error>(Error::Decode),
                },
                None => r == Err::<User, Error>(Error::Decode),
            },
    {
        if !(status >= 200 && status < 300) {
            return Err(Error::Status(status));
        }
        let j = match from_text(body) {
            Some(j) => j,
            None => {
                return Err(Error::Decode);
            },
        };
        match User::from_json(&j) {
            Some(u) => Ok(u),
            None => Err(Error::Decode),
        }
    }
}

/// A well-formed record encodes to a well-formed JSON value.
pub proof fn lemma_website_jsonv_wf(v: WebsiteV)
    ensures
        crate::json::wf(Website::to_jsonv_spec(v)),
{
    let f = seq![
        ("name"@, JsonV::Str(v.name)),
        ("link"@, JsonV::Str(v.link)),
        ("description"@, JsonV::Str(v.description)),
    ];
    assert forall|q: int| 0 <= q < 3 implies crate::json::wf(#[trigger] f[q].1) by {
        if q == 0 {
            assert(f[0] == ("name"@, JsonV::Str(v.name)));
        } else if q == 1 {
            assert(f[1] == ("link"@, JsonV::Str(v.link)));
        } else if q == 2 {
            assert(f[2] == ("description"@, JsonV::Str(v.description)));
        }
    }
    assert(Website::to_jsonv_spec(v) == JsonV::Obj(f));
}

/// A well-formed record encodes to a well-formed JSON value.
pub proof fn lemma_picture_size_jsonv_wf(v: PictureSizeV)
    requires
        v.wf(),
    ensures
        crate::json::wf(PictureSize::to_jsonv_spec(v)),
{
    let f = seq![
        ("width"@, JsonV::Int(v.width)),
        ("height"@, JsonV::Int(v.height)),
        ("link"@, JsonV::Str(v.link)),
        ("link_with_play_button"@, opt_str_jsonv(v.link_with_play_button)),
    ];
    assert forall|q: int| 0 <= q < 4 implies crate::json::wf(#[trigger] f[q].1) by {
        if q == 0 {
            assert(f[0] == ("width"@, JsonV::Int(v.width)));
        } else if q == 1 {
            assert(f[1] == ("height"@, JsonV::Int(v.height)));
        } else if q == 2 {
            assert(f[2] == ("link"@, JsonV::Str(v.link)));
        } else if q == 3 {
            assert(f[3] == ("link_with_play_button"@, opt_str_jsonv(v.link_with_play_button)));
        }
    }
    assert(PictureSize::to_jsonv_spec(v) == JsonV::Obj(f));
}

/// A well-formed record encodes to a well-formed JSON value.
pub proof fn lemma_pictures_jsonv_wf(v: PicturesV)
    requires
        v.wf(),
    ensures
        crate::json::wf(Pictures::to_jsonv_spec(v)),
{
    let f = seq![
        ("uri"@, opt_str_jsonv(v.uri)),
        ("active"@, JsonV::Bool(v.active)),
        ("type"@, JsonV::Str(v.ty)),
        ("sizes"@, JsonV::Arr(items_jsonv_spec::<PictureSize>(v.sizes))),
        ("link"@, opt_str_jsonv(v.link)),
        ("resource_key"@, JsonV::Str(v.resource_key)),
    ];
    assert forall|i: int| 0 <= i < v.sizes.len() implies crate::json::wf(
        PictureSize::to_jsonv_spec(#[trigger] v.sizes[i])) by {
        lemma_picture_size_jsonv_wf(v.sizes[i]);
    }
    lemma_items_jsonv_wf::<PictureSize>(v.sizes);
    assert forall|q: int| 0 <= q < 6 implies crate::json::wf(#[trigger] f[q].1) by {
        if q == 0 {
            assert(f[0] == ("uri"@, opt_str_jsonv(v.uri)));
        } else if q == 1 {
            assert(f[1] == ("active"@, JsonV::Bool(v.active)));
        } else if q == 2 {
            assert(f[2] == ("type"@, JsonV::Str(v.ty)));
        } else if q == 3 {
            assert(f[3] == ("sizes"@, JsonV::Arr(items_jsonv_spec::<PictureSize>(v.sizes))));
        } else if q == 4 {
            assert(f[4] == ("link"@, opt_str_jsonv(v.link)));
        } else if q == 5 {
            assert(f[5] == ("resource_key"@, JsonV::Str(v.resource_key)));
        }
    }
    assert(Pictures::to_jsonv_spec(v) == JsonV::Obj(f));
}

/// A well-formed record encodes to a well-formed JSON value.
pub proof fn lemma_user_jsonv_wf(v: UserV)
    requires
        v.wf(),
    ensures
        crate::json::wf(User::to_jsonv_spec(v)),
{
    let f = seq![
        ("uri"@, JsonV::Str(v.uri)),
        ("name"@, JsonV::Str(v.name)),
        ("link"@, JsonV::Str(v.link)),
        ("location"@, JsonV::Str(v.location)),
        ("bio"@, opt_str_jsonv(v.bio)),
        ("created_time"@, JsonV::Str(v.created_time)),
        ("account"@, JsonV::Str(v.account)),
        ("pictures"@, Pictures::to_jsonv_spec(v.pictures)),
        ("websites"@, JsonV::Arr(items_jsonv_spec::<Website>(v.websites))),
        ("content_filter"@, JsonV::Arr(items_jsonv_spec::<String>(v.content_filter))),
        ("resource_key"@, JsonV::Str(v.resource_key)),
    ];
    lemma_pictures_jsonv_wf(v.pictures);
    assert forall|i: int| 0 <= i < v.websites.len() implies crate::json::wf(
        Website::to_jsonv_spec(#[trigger] v.websites[i])) by {
        lemma_website_jsonv_wf(v.websites[i]);
    }
    lemma_items_jsonv_wf::<Website>(v.websites);
    assert forall|i: int| 0 <= i < v.content_filter.len() implies crate::json::wf(
        String::to_jsonv_spec(#[trigger] v.content_filter[i])) by {}
    lemma_items_jsonv_wf::<String>(v.content_filter);
    assert forall|q: int| 0 <= q < 11 implies crate::json::wf(#[trigger] f[q].1) by {
        if q == 0 {
            assert(f[0] == ("uri"@, JsonV::Str(v.uri)));
        } else if q == 1 {
            assert(f[1] == ("name"@, JsonV::Str(v.name)));
        } else if q == 2 {
            assert(f[2] == ("link"@, JsonV::Str(v.link)));
        } else if q == 3 {
            assert(f[3] == ("location"@, JsonV::Str(v.location)));
        } else if q == 4 {
            assert(f[4] == ("bio"@, opt_str_jsonv(v.bio)));
        } else if q == 5 {
            assert(f[5] == ("created_time"@, JsonV::Str(v.created_time)));
        } else if q == 6 {
            assert(f[6] == ("account"@, JsonV::Str(v.account)));
        } else if q == 7 {
            assert(f[7] == ("pictures"@, Pictures::to_jsonv_spec(v.pictures)));
        } else if q == 8 {
            assert(f[8] == ("websites"@, JsonV::Arr(items_jsonv_spec::<Website>(v.websites))));
        } else if q == 9 {
            assert(f[9] == ("content_filter"@, JsonV::Arr(items_jsonv_spec::<String>(v.content_filter))));
        } else if q == 10 {
            assert(f[10] == ("resource_key"@, JsonV::Str(v.resource_key)));
        }
    }
    assert(User::to_jsonv_spec(v) == JsonV::Obj(f));
}

/// The whole way there and back: a user serialized to JSON text parses back
/// to the same tree, and that tree decodes to the same record, field for
/// field, renamed fields included.
pub proof fn lemma_user_text_roundtrip(u: UserV)
    requires
        u.wf(),
    ensures
        parse_text(crate::json::ser(User::to_jsonv_spec(u))) == Some(User::to_jsonv_spec(u)),
        User::of_jsonv_spec(User::to_jsonv_spec(u)) == Some(u),
{
    lemma_user_jsonv_wf(u);
    crate::json::lemma_text_roundtrip(User::to_jsonv_spec(u));
    lemma_user_roundtrip(u);
}

} // verus!

