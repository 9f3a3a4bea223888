//! The cameras resource: decoding the endpoint's response into camera
//! records.

use vstd::prelude::*;
use crate::protect::{ProtectApi, ProtectError, cameras_segments, status_is_success};
use crate::base_url::url_append;

verus! {

/// A camera as the API reports it: hardware identifier, network address,
/// display label.
#[derive(Debug, Clone, PartialEq, Eq)]
pub struct Camera {
    pub mac: String,
    pub host: String,
    pub name: String,
}

/// The mathematical value of a camera record.
pub ghost struct CameraModel {
    pub mac: Seq<char>,
    pub host: Seq<char>,
    pub name: Seq<char>,
}

impl View for Camera {
    type V = CameraModel;

    open spec fn view(&self) -> CameraModel {
        CameraModel { mac: self.mac@, host: self.host@, name: self.name@ }
    }
}

impl DeepView for Camera {
    type V = CameraModel;

    open spec fn deep_view(&self) -> CameraModel {
        self.view()
    }
}

/// What `serde_json::from_str` decodes, for a JSON array of objects: per
/// object, the members whose values are JSON strings, as key-value pairs;
/// members of any other type are dropped, as a derived decoder would ignore
/// unknown members. Nothing when the text is not an array of objects.
pub uninterp spec fn json_string_records(s: Seq<char>) -> Option<Seq<Seq<(Seq<char>, Seq<char>)>>>;

/// Relies on `serde_json::from_str`, decoding into a vector of string-keyed
/// maps of JSON values, of which the string-valued members are kept: the
/// result is a function of the text alone.
#[verifier::external_body]
fn decode_string_records(body: &str) -> (r: Option<Vec<Vec<(String, String)>>>)
    ensures
        (r is Some) == (json_string_records(body@) is Some),
        r matches Some(v) ==> json_string_records(body@) == Some(v.deep_view()),
{
    let records = serde_json::from_str::<
        Vec<std::collections::BTreeMap<String, serde_json::Value>>,
    >(body).ok()?;
    Some(records.into_iter().map(|m| {
        m.into_iter().filter_map(|(k, v)| match v {
            serde_json::Value::String(s) => Some((k, s)),
            _ => None,
        }).collect()
    }).collect())
}

/// The first value under the given key.
pub open spec fn record_lookup(rec: Seq<(Seq<char>, Seq<char>)>, key: Seq<char>) -> Option<
    Seq<char>,
>
    decreases rec.len(),
{
    if rec.len() == 0 {
        None
    } else if rec[0].0 == key {
        Some(rec[0].1)
    } else {
        record_lookup(rec.skip(1), key)
    }
}

/// A camera from one record: the values under `mac`, `host` and `name`, all
/// of which must be present as strings; other members are ignored.
pub open spec fn camera_of_record(rec: Seq<(Seq<char>, Seq<char>)>) -> Option<CameraModel> {
    match (record_lookup(rec, "mac"@), record_lookup(rec, "host"@), record_lookup(rec, "name"@)) {
        (Some(m), Some(h), Some(n)) => Some(CameraModel { mac: m, host: h, name: n }),
        _ => None,
    }
}

/// The cameras of all records, in order, or nothing when some record is not
/// a camera.
pub open spec fn cameras_of(recs: Seq<Seq<(Seq<char>, Seq<char>)>>) -> Option<Seq<CameraModel>>
    decreases recs.len(),
{
    if recs.len() == 0 {
        Some(Seq::empty())
    } else {
        match (camera_of_record(recs[0]), cameras_of(recs.skip(1))) {
            (Some(c), Some(rest)) => Some(seq![c] + rest),
            _ => None,
        }
    }
}

fn lookup_value(rec: &Vec<(String, String)>, key: &str) -> (r: Option<String>)
    ensures
        match r {
            Some(v) => record_lookup(rec.deep_view(), key@) == Some(v@),
            None => record_lookup(rec.deep_view(), key@) is None,
        },
{
    let key_string = key.to_owned();
    let n = rec.len();
    let mut i: usize = 0;
    proof {
        assert(rec.deep_view().skip(0) =~= rec.deep_view());
    }
    while i < n
        invariant
            i <= n,
            n == rec.len(),
            key_string@ == key@,
            record_lookup(rec.deep_view(), key@) == record_lookup(
                rec.deep_view().skip(i as int),
                key@,
            ),
        decreases n - i,
    {
        proof {
            let s = rec.deep_view().skip(i as int);
            assert(s[0] == rec.deep_view()[i as int]);
            assert(s.skip(1) =~= rec.deep_view().skip((i + 1) as int));
        }
        if rec[i].0 == key_string {
            return Some(rec[i].1.clone());
        }
        i = i + 1;
    }
    proof {
        assert(rec.deep_view().skip(n as int) =~= Seq::<(Seq<char>, Seq<char>)>::empty());
    }
    None
}

fn camera_from_record(rec: &Vec<(String, String)>) -> (r: Option<Camera>)
    ensures
        match r {
            Some(c) => camera_of_record(rec.deep_view()) == Some(c@),
            None => camera_of_record(rec.deep_view()) is None,
        },
{
    let mac = match lookup_value(rec, "mac") {
        Some(v) => v,
        None => {
            return None;
        },
    };
    let host = match lookup_value(rec, "host") {
        Some(v) => v,
        None => {
            return None;
        },
    };
    let name = match lookup_value(rec, "name") {
        Some(v) => v,
        None => {
            return None;
        },
    };
    Some(Camera { mac, host, name })
}

fn cameras_from_records(recs: &Vec<Vec<(String, String)>>) -> (r: Option<Vec<Camera>>)
    ensures
        match r {
            Some(cams) => cameras_of(recs.deep_view()) == Some(cams.deep_view()),
            None => cameras_of(recs.deep_view()) is None,
        },
{
    let n = recs.len();
    let mut out: Vec<Camera> = Vec::new();
    let mut i: usize = 0;
    proof {
        assert(recs.deep_view().skip(0) =~= recs.deep_view());
        if cameras_of(recs.deep_view()) is Some {
            let rest = cameras_of(recs.deep_view())->Some_0;
            assert(out.deep_view() + rest =~= rest);
        }
    }
    while i < n
        invariant
            i <= n,
            n == recs.len(),
            match cameras_of(recs.deep_view().skip(i as int)) {
                Some(rest) => cameras_of(recs.deep_view()) == Some(out.deep_view() + rest),
                None => cameras_of(recs.deep_view()) is None,
            },
        decreases n - i,
    {
        proof {
            let s = recs.deep_view().skip(i as int);
            assert(s[0] == recs.deep_view()[i as int]);
            assert(s.skip(1) =~= recs.deep_view().skip((i + 1) as int));
        }
        let cam = match camera_from_record(&recs[i]) {
            Some(c) => c,
            None => {
                return None;
            },
        };
        let ghost old_out = out.deep_view();
        out.push(cam);
        proof {
            assert(out.deep_view() =~= old_out.push(cam@));
            let s = recs.deep_view().skip(i as int);
            if cameras_of(s.skip(1)) is Some {
                let rest = cameras_of(s.skip(1))->Some_0;
                assert(cameras_of(s) == Some(seq![cam@] + rest));
                assert(old_out + (seq![cam@] + rest) =~= old_out.push(cam@) + rest);
            }
        }
        i = i + 1;
    }
    proof {
        assert(recs.deep_view().skip(n as int) =~= Seq::<Seq<(Seq<char>, Seq<char>)>>::empty());
        assert(out.deep_view() + Seq::<CameraModel>::empty() =~= out.deep_view());
    }
    Some(out)
}

impl ProtectApi {
    /// Decode the outcome of the cameras round trip. A non-success status is
    /// a failed request, carrying the URL attempted and the status, so the
    /// caller can tell "never succeeded" from "got garbage"; a success whose
    /// body is not an array of camera records is an unexpected response;
    /// otherwise the cameras, in response order.
    pub fn list_cameras(&self, status: u16, body: &str) -> (r: Result<Vec<Camera>, ProtectError>)
        ensures
            match r {
                Ok(cams) => {
                    &&& status_is_success(status)
                    &&& json_string_records(body@) is Some
                    &&& cameras_of(json_string_records(body@)->Some_0) == Some(cams.deep_view())
                },
                Err(ProtectError::RequestFailed { url, status: st }) => {
                    &&& url@ == url_append(self.base(), cameras_segments())
                    &&& st == status
                    &&& !status_is_success(status)
                },
                Err(ProtectError::UnexpectedResponseJson { url }) => {
                    &&& url@ == url_append(self.base(), cameras_segments())
                    &&& status_is_success(status)
                    &&& (json_string_records(body@) is None || cameras_of(
                        json_string_records(body@)->Some_0,
                    ) is None)
                },
            },
    {
        let url = self.cameras_url();
        if !(200 <= status && status < 300) {
            return Err(ProtectError::RequestFailed { url, status });
        }
        let recs = match decode_string_records(body) {
            Some(v) => v,
            None => {
                return Err(ProtectError::UnexpectedResponseJson { url });
            },
        };
        match cameras_from_records(&recs) {
            Some(cams) => Ok(cams),
            None => Err(ProtectError::UnexpectedResponseJson { url }),
        }
    }
}

} // verus!
