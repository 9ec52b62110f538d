use vimeo_rs::error::Error;
use vimeo_rs::service::Method;
use vimeo_rs::users::{Pictures, PictureSize, User, UserService, Website};
use vimeo_rs::videos::{Privacy, Stats, Transcode, Upload, Video, VideoService};
use vimeo_rs::vimeo::VimeoServices;

fn stub_pictures() -> Pictures {
    Pictures {
        uri: None,
        active: true,
        ty: "default".to_string(),
        sizes: vec![PictureSize {
            width: 100,
            height: 75,
            link: "https://i.example/100x75".to_string(),
            link_with_play_button: None,
        }],
        link: None,
        resource_key: "pk".to_string(),
    }
}

fn stub_user(name: &str) -> User {
    User {
        uri: "/users/1".to_string(),
        name: name.to_string(),
        link: "https://vimeo.example/jane".to_string(),
        location: "Berlin".to_string(),
        bio: Some("hi".to_string()),
        created_time: "2013-10-16T21:18:59+00:00".to_string(),
        account: "basic".to_string(),
        pictures: stub_pictures(),
        websites: vec![Website {
            name: "home".to_string(),
            link: "https://example.net".to_string(),
            description: "a page".to_string(),
        }],
        content_filter: vec!["safe".to_string()],
        resource_key: "uk".to_string(),
    }
}

fn stub_video(name: &str) -> Video {
    Video {
        uri: "/videos/9".to_string(),
        name: name.to_string(),
        description: None,
        link: "https://vimeo.example/9".to_string(),
        duration: 120,
        width: 1920,
        height: 1080,
        language: "en".to_string(),
        created_time: "2020-01-01T00:00:00+00:00".to_string(),
        modified_time: "2020-01-02T00:00:00+00:00".to_string(),
        release_time: "2020-01-03T00:00:00+00:00".to_string(),
        content_rating: vec!["safe".to_string()],
        license: None,
        privacy: Privacy {
            view: "anybody".to_string(),
            comments: "anybody".to_string(),
            embed: "public".to_string(),
            download: true,
            add: true,
            join: None,
            videos: None,
            forums: None,
            invite: None,
        },
        pictures: stub_pictures(),
        tags: vec![],
        stats: Stats { plays: 3 },
        categories: vec![],
        user: stub_user("Jane"),
        status: "available".to_string(),
        resource_key: "vk".to_string(),
        embed_presets: None,
        upload: Upload {
            status: "complete".to_string(),
            upload_link: None,
            redirect_url: None,
            link: None,
            form: None,
            approach: None,
            size: Some(123456),
        },
        transcode: Transcode {
            status: "complete".to_string(),
        },
    }
}

fn user_body(name: &str) -> String {
    vimeo_rs::json::to_text(&vimeo_rs::records::JsonRecord::to_json(&stub_user(name)))
}

#[test]
fn facade_get_user_without_id_hits_me_and_decodes_jane() {
    let facade = VimeoServices::new("abc123").unwrap();
    let req = facade.users().get_request(&None).unwrap();
    assert_eq!(req.method, Method::Get);
    assert_eq!(req.url, "https://api.vimeo.com/me");
    assert!(req.body.is_none());
    // The stub endpoint at `me` answers 200 with a user whose name is Jane.
    let body = user_body("Jane");
    let user = UserService::parse_response(200, &body).unwrap();
    assert_eq!(user.name, "Jane");
}

#[test]
fn user_decode_ignores_unknown_fields_and_order() {
    let body = "{\"whatever\":17,\"name\":\"Jane\",\"uri\":\"/users/1\",\"link\":\"l\",\"location\":\"x\",\"created_time\":\"t\",\"account\":\"basic\",\"pictures\":{\"active\":true,\"type\":\"default\",\"sizes\":[],\"resource_key\":\"pk\"},\"websites\":[],\"content_filter\":[],\"resource_key\":\"uk\"}";
    let user = UserService::parse_response(200, body).unwrap();
    assert_eq!(user.name, "Jane");
    assert_eq!(user.bio, None);
}

#[test]
fn facade_list_videos_with_id_hits_users_42_and_decodes_clip() {
    let facade = VimeoServices::new("abc123").unwrap();
    let req = facade
        .videos()
        .list_request(&Some("42".to_string()))
        .unwrap();
    assert_eq!(req.method, Method::Get);
    assert_eq!(req.url, "https://api.vimeo.com/users/42/videos");
    // The stub endpoint answers 200 with one video named Clip.
    let video_json = vimeo_rs::records::JsonRecord::to_json(&stub_video("Clip"));
    let body = vimeo_rs::json::to_text(&vimeo_rs::json::Json::Obj(vec![(
        "data".to_string(),
        vimeo_rs::json::Json::Arr(vec![video_json]),
    )]));
    let videos = VideoService::parse_response(200, &body).unwrap();
    assert_eq!(videos.len(), 1);
    assert_eq!(videos[0].name, "Clip");
}

#[test]
fn non_success_status_is_reported_not_decoded() {
    let r = UserService::parse_response(401, "Unauthorized: not json at all");
    assert_eq!(r.unwrap_err(), Error::Status(401));
    let r = VideoService::parse_response(503, "<html>down</html>");
    assert_eq!(r.unwrap_err(), Error::Status(503));
}

#[test]
fn success_status_with_broken_body_is_a_decode_failure() {
    let r = UserService::parse_response(200, "Unauthorized: not json at all");
    assert_eq!(r.unwrap_err(), Error::Decode);
    let r = UserService::parse_response(200, "{\"name\":\"Jane\"}");
    assert_eq!(r.unwrap_err(), Error::Decode);
}

#[test]
fn user_record_round_trips_through_json_text() {
    let user = stub_user("Jane");
    let body = vimeo_rs::json::to_text(&vimeo_rs::records::JsonRecord::to_json(&user));
    let back = UserService::parse_response(200, &body).unwrap();
    assert_eq!(back, user);
}

#[test]
fn video_record_round_trips_through_json_text() {
    let video = stub_video("Clip");
    let encoded = vimeo_rs::records::JsonRecord::to_json(&video);
    let text = vimeo_rs::json::to_text(&encoded);
    let parsed = vimeo_rs::json::from_text(&text).unwrap();
    let back: Video = vimeo_rs::records::JsonRecord::from_json(&parsed).unwrap();
    assert_eq!(back, video);
}

#[test]
fn renamed_fields_use_their_wire_names() {
    // `ty` stands for the reserved word `type`; `looping` for `loop`;
    // `hd` for `HD`.
    let text = vimeo_rs::json::to_text(&vimeo_rs::records::JsonRecord::to_json(&stub_pictures()));
    assert!(text.contains("\"type\":\"default\""));
    assert!(!text.contains("\"ty\""));
}

#[test]
fn invalid_token_is_refused_before_anything_is_built() {
    let r = VimeoServices::new("bad\ntoken");
    match r {
        Err(e) => assert_eq!(e, Error::InvalidAccessToken),
        Ok(_) => panic!("a token with a control character must be refused"),
    }
    let t = vimeo_rs::client::Transport::new("bad\u{7f}token");
    assert!(t.is_err());
}

#[test]
fn transport_is_shared_not_rebuilt() {
    let t = vimeo_rs::client::Transport::new("abc123").unwrap();
    let u = t.share();
    assert_eq!(t.base_url(), "https://api.vimeo.com/");
    assert_eq!(u.base_url(), "https://api.vimeo.com/");
}

#[test]
fn builders_are_ready_to_send() {
    let facade = VimeoServices::new("abc123").unwrap();
    assert!(facade.users().get_builder(&None).is_ok());
    assert!(facade
        .videos()
        .list_builder(&Some("42".to_string()))
        .is_ok());
}

#[test]
fn transport_builds_a_request_with_a_body() {
    let t = vimeo_rs::client::Transport::new("abc123").unwrap();
    let req = vimeo_rs::service::build_request(
        vimeo_rs::service::Method::Post,
        "me/videos",
        Some("{\"name\":\"Clip\"}".to_string()),
    )
    .unwrap();
    assert!(t.reqwest_builder(&req).is_ok());
}
