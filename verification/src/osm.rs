//! The geocode lookup: points of map nodes by the station code they are
//! tagged with.

use vstd::prelude::*;
use crate::station::GeoLookup;
use crate::station::GeoPoint;
use crate::text::same_text;

verus! {

/// A tag of a map node.
pub struct Tag {
    pub key: String,
    pub value: String,
}

/// The model of [`Tag`] in contracts.
pub struct TagView {
    pub key: Seq<char>,
    pub value: Seq<char>,
}

impl View for Tag {
    type V = TagView;

    open spec fn view(&self) -> TagView {
        TagView { key: self.key@, value: self.value@ }
    }
}

/// A map node: its tags and its position in units of 10^-7 degree.
pub struct OsmNode {
    pub tags: Vec<Tag>,
    pub decimicro_lat: i32,
    pub decimicro_lon: i32,
}

/// The model of [`OsmNode`] in contracts.
pub struct OsmNodeView {
    pub tags: Seq<TagView>,
    pub point: GeoPoint,
}

impl View for OsmNode {
    type V = OsmNodeView;

    open spec fn view(&self) -> OsmNodeView {
        OsmNodeView {
            tags: self.tags@.map_values(|t: Tag| t@),
            point: GeoPoint { lat: self.decimicro_lat, lon: self.decimicro_lon },
        }
    }
}

/// The views of a run of nodes.
pub open spec fn node_views(nodes: Seq<OsmNode>) -> Seq<OsmNodeView> {
    nodes.map_values(|n: OsmNode| n@)
}

/// The value of the first tag with the key `key`, if there is one.
pub open spec fn tag_value(tags: Seq<TagView>, key: Seq<char>) -> Option<Seq<char>>
    decreases tags.len(),
{
    if tags.len() == 0 {
        None
    } else if tags[0].key == key {
        Some(tags[0].value)
    } else {
        tag_value(tags.drop_first(), key)
    }
}

/// The station code that a node is tagged with, if it is.
pub open spec fn station_code_tag(node: OsmNodeView) -> Option<Seq<char>> {
    tag_value(node.tags, "ref:crs"@)
}

/// The lookup after the nodes have been entered in order: each node with a
/// station code puts its point under that code, a later node replacing an
/// earlier one with the same code.
pub open spec fn geocodes_after(lookup: Map<Seq<char>, GeoPoint>, nodes: Seq<OsmNodeView>) -> Map<
    Seq<char>,
    GeoPoint,
>
    decreases nodes.len(),
{
    if nodes.len() == 0 {
        lookup
    } else {
        let before = geocodes_after(lookup, nodes.drop_last());
        match station_code_tag(nodes.last()) {
            Some(code) => before.insert(code, nodes.last().point),
            None => before,
        }
    }
}

/// Finds the value of the first tag with the key `key`.
pub fn find_tag<'a>(tags: &'a Vec<Tag>, key: &str) -> (r: Option<&'a String>)
    ensures
        match r {
            Some(value) => tag_value(tags@.map_values(|t: Tag| t@), key@) == Some(value@),
            None => tag_value(tags@.map_values(|t: Tag| t@), key@) is None,
        },
{
    let ghost all = tags@.map_values(|t: Tag| t@);
    let mut i: usize = 0;
    assert(all.skip(0) =~= all);
    while i < tags.len()
        invariant
            i <= tags.len(),
            all == tags@.map_values(|t: Tag| t@),
            tag_value(all, key@) == tag_value(all.skip(i as int), key@),
        decreases tags.len() - i,
    {
        let ghost rest = all.skip(i as int);
        assert(rest.drop_first() =~= all.skip(i as int + 1));
        if same_text(tags[i].key.as_str(), key) {
            return Some(&tags[i].value);
        }
        i = i + 1;
    }
    None
}

/// Builds the geocode lookup from map nodes: every node tagged with a
/// station code gives that code its point.
pub fn parse_osm_crs(nodes: &Vec<OsmNode>) -> (lookup: GeoLookup)
    ensures
        lookup.wf(),
        lookup@ == geocodes_after(Map::empty(), node_views(nodes@)),
{
    let ghost all = node_views(nodes@);
    let mut lookup: GeoLookup = GeoLookup::new();
    let mut i: usize = 0;
    while i < nodes.len()
        invariant
            i <= nodes.len(),
            lookup.wf(),
            all == node_views(nodes@),
            lookup@ == geocodes_after(Map::empty(), all.take(i as int)),
        decreases nodes.len() - i,
    {
        proof {
            let next = all.take(i as int + 1);
            assert(next.drop_last() =~= all.take(i as int));
        }
        let node = &nodes[i];
        match find_tag(&node.tags, "ref:crs") {
            Some(code) => {
                lookup.insert(
                    code.clone(),
                    GeoPoint { lat: node.decimicro_lat, lon: node.decimicro_lon },
                );
            },
            None => {},
        }
        i = i + 1;
    }
    assert(all.take(i as int) =~= all);
    lookup
}

} // verus!
