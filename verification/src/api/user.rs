//! User related APIs.
use vstd::prelude::*;
use crate::api::{ApiRequest, ApiRequestBuilder, entry_ok, pair_views, text_at};
use crate::error::ApiResult;
use crate::json::Json;
use crate::text::{int_text, int_to_string};

verus! {

/// User related APIs collection
pub struct User {
    /// The user API table.
    pub api_info: Json,
    /// The user id.
    pub uid: String,
}

impl User {
    /// The APIs of user `uid`, from the user API table.
    pub fn new(api_info: Json, uid: String) -> (r: Self)
        ensures
            r.api_info == api_info,
            r.uid == uid,
    {
        User { api_info, uid }
    }

    fn rb(&self) -> (r: ApiRequestBuilder)
        ensures
            r.api_info matches Some(i) && i@ == self.api_info@,
    {
        ApiRequestBuilder::new().api(self.api_info.deep_clone())
    }

    /// Get user basic info: the request of `info/info` with the user id as
    /// `mid`, cachable.
    pub fn get_info(&self) -> (r: ApiResult<ApiRequest>)
        requires
            entry_ok(self.api_info@, "info/info"@),
        ensures
            r matches Ok(req) && req.method@ == text_at(self.api_info@, "info/info/method"@)->Str_0
                && req.url@ == text_at(self.api_info@, "info/info/url"@)->Str_0
                && pair_views(req.query@) == seq![("mid"@, self.uid@)]
                && req.bufferable && !req.invalidate_flag,
    {
        proof {
            reveal_strlit("info/info");
            reveal_strlit("info/info/method");
            reveal_strlit("info/info/url");
            reveal_strlit("/method");
            reveal_strlit("/url");
            assert("info/info"@ + "/method"@ =~= "info/info/method"@);
            assert("info/info"@ + "/url"@ =~= "info/info/url"@);
        }
        let pairs = [("mid", self.uid.as_str())];
        let r = self.rb().path("info/info").query(&pairs);
        assert(crate::api::ref_pair_views(pairs@) =~= seq![("mid"@, self.uid@)]);
        r.bufferable()
    }

    /// Fetch user's upload video list, page `page_no`: the request of
    /// `info/video` with `mid`, `pn`, `tid` 0, `ps` 30 and `order` pubdate,
    /// never cached.
    pub fn video_list(&self, page_no: i32) -> (r: ApiResult<ApiRequest>)
        requires
            entry_ok(self.api_info@, "info/video"@),
        ensures
            r matches Ok(req) && req.method@ == text_at(self.api_info@, "info/video/method"@)->Str_0
                && req.url@ == text_at(self.api_info@, "info/video/url"@)->Str_0
                && pair_views(req.query@) == seq![
                    ("mid"@, self.uid@),
                    ("pn"@, int_text(page_no as int)),
                    ("tid"@, "0"@),
                    ("ps"@, "30"@),
                    ("order"@, "pubdate"@),
                ] && !req.bufferable && !req.invalidate_flag,
    {
        proof {
            reveal_strlit("info/video");
            reveal_strlit("info/video/method");
            reveal_strlit("info/video/url");
            reveal_strlit("/method");
            reveal_strlit("/url");
            assert("info/video"@ + "/method"@ =~= "info/video/method"@);
            assert("info/video"@ + "/url"@ =~= "info/video/url"@);
        }
        let pn = int_to_string(page_no as i128);
        let first = [("mid", self.uid.as_str()), ("pn", pn.as_str())];
        let second = [("tid", "0"), ("ps", "30"), ("order", "pubdate")];
        let r = self.rb().path("info/video").query(&first).query(&second);
        assert(crate::api::ref_pair_views(first@) =~= seq![("mid"@, self.uid@), ("pn"@, pn@)]);
        assert(crate::api::ref_pair_views(second@) =~= seq![("tid"@, "0"@), ("ps"@, "30"@), ("order"@, "pubdate"@)]);
        r.nobuffer()
    }
}

} // verus!
