//! The RouteConfiguration resource: a name and its virtual hosts.
use vstd::prelude::*;
use crate::error::Error;
use crate::resource::XdsResource;
use crate::wire::{
    bytes_field, fold_fields, lemma_fold_done, lemma_fold_step, merge_message, read_fields, read_string,
    same_result, spans_view, string_field, Field, WireError, WireType,
};

verus! {

/// Type URL of the RouteConfiguration resource.
pub const ROUTE_TYPE_URL: &'static str = "type.googleapis.com/envoy.config.route.v3.RouteConfiguration";

/// Virtual host for a route configuration.
#[derive(Clone, Debug)]
pub struct VirtualHost {
    /// The name of the virtual host.
    pub name: String,
    /// The domains of the virtual host.
    pub domains: Vec<String>,
}

pub ghost struct VirtualHostView {
    pub name: Seq<char>,
    pub domains: Seq<Seq<char>>,
}

impl VirtualHostView {
    pub open spec fn empty() -> VirtualHostView {
        VirtualHostView { name: Seq::empty(), domains: Seq::empty() }
    }
}

impl View for VirtualHost {
    type V = VirtualHostView;

    open spec fn view(&self) -> VirtualHostView {
        VirtualHostView { name: self.name@, domains: self.domains@.map_values(|d: String| d@) }
    }
}

/// Route configuration resource.
#[derive(Clone, Debug)]
pub struct RouteConfiguration {
    /// The name of the route configuration.
    pub name: String,
    /// The virtual hosts of the route configuration.
    pub virtual_hosts: Vec<VirtualHost>,
}

pub ghost struct RouteConfigurationView {
    pub name: Seq<char>,
    pub virtual_hosts: Seq<VirtualHostView>,
}

impl RouteConfigurationView {
    pub open spec fn empty() -> RouteConfigurationView {
        RouteConfigurationView { name: Seq::empty(), virtual_hosts: Seq::empty() }
    }
}

impl View for RouteConfiguration {
    type V = RouteConfigurationView;

    open spec fn view(&self) -> RouteConfigurationView {
        RouteConfigurationView { name: self.name@, virtual_hosts: self.virtual_hosts@.map_values(|v: VirtualHost| v@) }
    }
}

/// Fields of `VirtualHost`: name = 1, domains = 2 (repeated).
pub open spec fn vhost_step() -> spec_fn(VirtualHostView, Field) -> Result<VirtualHostView, WireError> {
    |a: VirtualHostView, f: Field|
        if f.num == 1 {
            match string_field(f) {
                Ok(t) => Ok(VirtualHostView { name: t, domains: a.domains }),
                Err(e) => Err(e),
            }
        } else if f.num == 2 {
            match string_field(f) {
                Ok(t) => Ok(VirtualHostView { name: a.name, domains: a.domains.push(t) }),
                Err(e) => Err(e),
            }
        } else {
            Ok(a)
        }
}

/// Fields of `RouteConfiguration`: name = 1, virtual_hosts = 2 (repeated).
pub open spec fn route_step() -> spec_fn(RouteConfigurationView, Field) -> Result<RouteConfigurationView, WireError> {
    |a: RouteConfigurationView, f: Field|
        if f.num == 1 {
            match string_field(f) {
                Ok(t) => Ok(RouteConfigurationView { name: t, virtual_hosts: a.virtual_hosts }),
                Err(e) => Err(e),
            }
        } else if f.num == 2 {
            match bytes_field(f) {
                Err(e) => Err(e),
                Ok(d) => match merge_message(d, VirtualHostView::empty(), vhost_step()) {
                    Ok(v) => Ok(RouteConfigurationView { name: a.name, virtual_hosts: a.virtual_hosts.push(v) }),
                    Err(e) => Err(e),
                },
            }
        } else {
            Ok(a)
        }
}

/// The view of a serialized `RouteConfiguration`.
pub open spec fn route_config_of(b: Seq<u8>) -> Result<RouteConfigurationView, WireError> {
    merge_message(b, RouteConfigurationView::empty(), route_step())
}

/// Merges the `VirtualHost` in `b[lo..hi]`.
fn merge_vhost(b: &[u8], lo: usize, hi: usize, init: VirtualHost) -> (r: Result<VirtualHost, WireError>)
    requires
        lo <= hi <= b.len(),
    ensures
        same_result(r, merge_message(b@.subrange(lo as int, hi as int), init@, vhost_step())),
{
    let fields = match read_fields(b, lo, hi) {
        Ok(f) => f,
        Err(e) => return Err(e),
    };
    let ghost fs = spans_view(fields@, b@);
    let ghost a0 = init@;
    let mut acc = init;
    let mut i: usize = 0;
    assert(fs.subrange(0, fs.len() as int) =~= fs);
    while i < fields.len()
        invariant
            i <= fields.len(),
            hi <= b.len(),
            fs == spans_view(fields@, b@),
            forall|j: int| 0 <= j < fields.len() ==> (#[trigger] fields@[j]).within(lo as int, hi as int),
            init@ == a0,
            merge_message(b@.subrange(lo as int, hi as int), a0, vhost_step()) == fold_fields(fs, a0, vhost_step()),
            fold_fields(fs, a0, vhost_step()) == fold_fields(fs.subrange(i as int, fs.len() as int), acc@, vhost_step()),
        decreases fields.len() - i,
    {
        let s = fields[i];
        proof {
            lemma_fold_step(fs, i as int, acc@, vhost_step());
            assert(fs[i as int] == s.view_in(b@));
        }
        if s.num == 1 {
            match read_string(b, s) {
                Ok(t) => {
                    acc.name = t;
                },
                Err(e) => return Err(e),
            }
        } else if s.num == 2 {
            match read_string(b, s) {
                Ok(t) => {
                    let ghost before = acc@;
                    let ghost tv = t@;
                    acc.domains.push(t);
                    assert(acc@.domains =~= before.domains.push(tv));
                },
                Err(e) => return Err(e),
            }
        }
        i += 1;
    }
    proof {
        lemma_fold_done(fs, acc@, vhost_step());
    }
    Ok(acc)
}

/// Merges the `RouteConfiguration` in `b[lo..hi]`.
fn merge_route(b: &[u8], lo: usize, hi: usize, init: RouteConfiguration) -> (r: Result<RouteConfiguration, WireError>)
    requires
        lo <= hi <= b.len(),
    ensures
        same_result(r, merge_message(b@.subrange(lo as int, hi as int), init@, route_step())),
{
    let fields = match read_fields(b, lo, hi) {
        Ok(f) => f,
        Err(e) => return Err(e),
    };
    let ghost fs = spans_view(fields@, b@);
    let ghost a0 = init@;
    let mut acc = init;
    let mut i: usize = 0;
    assert(fs.subrange(0, fs.len() as int) =~= fs);
    while i < fields.len()
        invariant
            i <= fields.len(),
            hi <= b.len(),
            fs == spans_view(fields@, b@),
            forall|j: int| 0 <= j < fields.len() ==> (#[trigger] fields@[j]).within(lo as int, hi as int),
            init@ == a0,
            merge_message(b@.subrange(lo as int, hi as int), a0, route_step()) == fold_fields(fs, a0, route_step()),
            fold_fields(fs, a0, route_step()) == fold_fields(fs.subrange(i as int, fs.len() as int), acc@, route_step()),
        decreases fields.len() - i,
    {
        let s = fields[i];
        proof {
            lemma_fold_step(fs, i as int, acc@, route_step());
            assert(fs[i as int] == s.view_in(b@));
        }
        if s.num == 1 {
            match read_string(b, s) {
                Ok(t) => {
                    acc.name = t;
                },
                Err(e) => return Err(e),
            }
        } else if s.num == 2 {
            if s.wire != WireType::Len {
                return Err(WireError::UnexpectedWireType);
            }
            let fresh = VirtualHost { name: String::new(), domains: Vec::new() };
            assert(fresh@.domains =~= Seq::<Seq<char>>::empty());
            match merge_vhost(b, s.lo, s.hi, fresh) {
                Ok(v) => {
                    let ghost before = acc@;
                    let ghost vv = v@;
                    acc.virtual_hosts.push(v);
                    assert(acc@.virtual_hosts =~= before.virtual_hosts.push(vv));
                },
                Err(e) => return Err(e),
            }
        }
        i += 1;
    }
    proof {
        lemma_fold_done(fs, acc@, route_step());
    }
    Ok(acc)
}

/// Decodes a serialized `RouteConfiguration` into its view.
pub fn decode_route_config(data: &[u8]) -> (r: Result<RouteConfiguration, WireError>)
    ensures
        same_result(r, route_config_of(data@)),
{
    let init = RouteConfiguration { name: String::new(), virtual_hosts: Vec::new() };
    assert(init@.virtual_hosts =~= Seq::<VirtualHostView>::empty());
    assert(data@.subrange(0, data@.len() as int) =~= data@);
    merge_route(data, 0, data.len(), init)
}

/// Resource definition for RouteConfiguration.
#[derive(Debug)]
pub struct RouteResource;

impl XdsResource for RouteResource {
    type Resource = RouteConfiguration;

    open spec fn decodes_to(data: Seq<u8>, r: Result<RouteConfiguration, Error>) -> bool {
        match route_config_of(data) {
            Ok(v) => r matches Ok(x) && x@ == v,
            Err(e) => r matches Err(Error::Decode(x)) && x == e,
        }
    }

    fn type_url() -> (r: &'static str)
        ensures
            r@ == ROUTE_TYPE_URL@,
    {
        ROUTE_TYPE_URL
    }

    fn decode(data: &[u8]) -> (r: Result<RouteConfiguration, Error>) {
        match decode_route_config(data) {
            Ok(c) => Ok(c),
            Err(e) => Err(Error::Decode(e)),
        }
    }
}

} // verus!
