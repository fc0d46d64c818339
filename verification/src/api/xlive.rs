//! Live related neXt generation APIs.
use vstd::prelude::*;
use crate::api::{ApiRequest, ApiRequestBuilder, entry_ok, pair_views, ref_pair_views, text_at};
use crate::error::ApiResult;
use crate::json::Json;
use crate::text::{int_text, int_to_string};

verus! {

/// Parent areas of live rooms.
pub enum PAreaID {
    SingleGame,
    Vup,
}

impl PAreaID {
    /// The id of the area.
    pub fn as_i32(&self) -> (r: i32)
        ensures
            r == match self {
                PAreaID::SingleGame => 6i32,
                PAreaID::Vup => 9i32,
            },
            r as int == parent_area_number(*self),
    {
        match self {
            PAreaID::SingleGame => 6,
            PAreaID::Vup => 9,
        }
    }
}

/// Areas of live rooms.
pub enum AreaID {
    All,
    HaloInfinite,
    ConsoleGame,
    OtherSingleGame,
}

impl AreaID {
    /// The id of the area.
    pub fn as_i32(&self) -> (r: i32)
        ensures
            r == match self {
                AreaID::All => 0i32,
                AreaID::OtherSingleGame => 235i32,
                AreaID::ConsoleGame => 236i32,
                AreaID::HaloInfinite => 559i32,
            },
            r as int == area_number(*self),
    {
        match self {
            AreaID::All => 0,
            AreaID::OtherSingleGame => 235,
            AreaID::ConsoleGame => 236,
            AreaID::HaloInfinite => 559,
        }
    }
}

/// Orders of the live list.
pub enum ListSortType {
    Entropy,
    Latest,
}

impl ListSortType {
    /// The name of the order.
    pub fn as_str(&self) -> (r: String)
        ensures
            r@ == match self {
                ListSortType::Entropy => "sort_type_291"@,
                ListSortType::Latest => "live_time"@,
            },
            r@ == sort_name(*self),
    {
        String::from_str(
            match self {
                ListSortType::Entropy => "sort_type_291",
                ListSortType::Latest => "live_time",
            },
        )
    }
}

/// Live related neXt generation APIs collection
pub struct Xlive {
    /// The live API table.
    pub api_info: Json,
}

/// The id of a parent area.
pub open spec fn parent_area_number(p: PAreaID) -> int {
    match p {
        PAreaID::SingleGame => 6,
        PAreaID::Vup => 9,
    }
}

/// The id of an area.
pub open spec fn area_number(a: AreaID) -> int {
    match a {
        AreaID::All => 0,
        AreaID::OtherSingleGame => 235,
        AreaID::ConsoleGame => 236,
        AreaID::HaloInfinite => 559,
    }
}

/// The name of a list order.
pub open spec fn sort_name(t: ListSortType) -> Seq<char> {
    match t {
        ListSortType::Entropy => "sort_type_291"@,
        ListSortType::Latest => "live_time"@,
    }
}

/// Each list order has a name of its own: the order that `get_list` is
/// asked for is the one its `sort_type` names.
pub proof fn law_sort_names_differ(a: ListSortType, b: ListSortType)
    requires
        sort_name(a) == sort_name(b),
    ensures
        a == b,
{
    reveal_strlit("sort_type_291");
    reveal_strlit("live_time");
    assert("sort_type_291"@.len() != "live_time"@.len());
}

/// Each parent area has an id of its own.
pub proof fn law_parent_area_ids_differ(a: PAreaID, b: PAreaID)
    requires
        parent_area_number(a) == parent_area_number(b),
    ensures
        a == b,
{
}

/// Each area has an id of its own.
pub proof fn law_area_ids_differ(a: AreaID, b: AreaID)
    requires
        area_number(a) == area_number(b),
    ensures
        a == b,
{
}

impl Xlive {
    /// The live APIs, from the live API table.
    pub fn new(api_info: Json) -> (r: Self)
        ensures
            r.api_info == api_info,
    {
        Xlive { api_info }
    }

    fn rb(&self) -> (r: ApiRequestBuilder)
        ensures
            r.api_info matches Some(i) && i@ == self.api_info@,
    {
        ApiRequestBuilder::new().api(self.api_info.deep_clone())
    }

    /// The live list of an area, page `page`: the request of
    /// `info/get_list` with `platform` web, then `sort_type`,
    /// `parent_area_id`, `area_id` and `page`, never cached.
    pub fn get_list(&self, p_area: PAreaID, area: AreaID, stype: ListSortType, page: i32) -> (r:
        ApiResult<ApiRequest>)
        requires
            entry_ok(self.api_info@, "info/get_list"@),
        ensures
            r matches Ok(req) && req.method@ == text_at(self.api_info@, "info/get_list/method"@)->Str_0
                && req.url@ == text_at(self.api_info@, "info/get_list/url"@)->Str_0
                && pair_views(req.query@) == seq![
                    ("platform"@, "web"@),
                    ("sort_type"@, sort_name(stype)),
                    ("parent_area_id"@, int_text(parent_area_number(p_area))),
                    ("area_id"@, int_text(area_number(area))),
                    ("page"@, int_text(page as int)),
                ] && !req.bufferable && !req.invalidate_flag,
    {
        proof {
            reveal_strlit("info/get_list");
            reveal_strlit("info/get_list/method");
            reveal_strlit("info/get_list/url");
            reveal_strlit("/method");
            reveal_strlit("/url");
            assert("info/get_list"@ + "/method"@ =~= "info/get_list/method"@);
            assert("info/get_list"@ + "/url"@ =~= "info/get_list/url"@);
        }
        let pn = int_to_string(page as i128);
        let pid = int_to_string(p_area.as_i32() as i128);
        let aid = int_to_string(area.as_i32() as i128);
        let sty = stype.as_str();
        let first = [("platform", "web")];
        let second = [
            ("sort_type", sty.as_str()),
            ("parent_area_id", pid.as_str()),
            ("area_id", aid.as_str()),
            ("page", pn.as_str()),
        ];
        let r = self.rb().path("info/get_list").query(&first).query(&second);
        assert(ref_pair_views(first@) =~= seq![("platform"@, "web"@)]);
        assert(ref_pair_views(second@) =~= seq![
            ("sort_type"@, sty@),
            ("parent_area_id"@, pid@),
            ("area_id"@, aid@),
            ("page"@, pn@),
        ]);
        r.nobuffer()
    }
}

} // verus!
