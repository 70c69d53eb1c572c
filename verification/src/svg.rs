//! Inlining and optimization of SVG images: a cleaning pass over the parsed
//! document, accessibility attributes, and content-hash prefixes on element
//! ids so that several inlined SVGs cannot collide on one page.
//!
//! The work happens in two deterministic steps.  The first parses the source,
//! runs the cleaning pass, sets `role="img"` and prepends a `title` element
//! holding the alt text, and serializes the cleaned document.  The second
//! gives every element id the prefix computed (by verified code) as the
//! 16-bit content hash of that cleaned text, and serializes the result.  If
//! either step fails the raw source is inlined as it stands, with a warning.

use vstd::prelude::*;
use vstd::string::*;
use vstd::utf8::encode_utf8;
use svgcleaner::cleaner::{clean_doc, parse_data, write_buffer};
use crate::hashing::{content_hash, hex_seq, push_hex, lemma_hex4_injective};

verus! {

#[verifier::external_type_specification]
pub struct ExStyleJoinMode(svgcleaner::StyleJoinMode);

#[verifier::external_type_specification]
pub struct ExIndent(svgdom::Indent);

#[verifier::external_type_specification]
pub struct ExListSeparator(svgdom::ListSeparator);

#[verifier::external_type_specification]
pub struct ExAttributesOrder(svgdom::AttributesOrder);

#[verifier::external_type_specification]
pub struct ExCleaningOptions(svgcleaner::CleaningOptions);

#[verifier::external_type_specification]
pub struct ExWriteOptions(svgdom::WriteOptions);

/// The cleaning pass configuration: strip unreferenced ids, default
/// attributes, descriptions, metadata, titles, duplicate gradients and
/// invisible elements; resolve `use`; ungroup groups and defs; apply
/// transforms into coordinates; round numbers to 3 significant digits; keep
/// path commands absolute.
pub fn cleaning_policy() -> (o: svgcleaner::CleaningOptions)
    ensures
        o.remove_unreferenced_ids,
        o.remove_default_attributes,
        o.remove_desc,
        o.remove_metadata,
        o.remove_title,
        o.remove_unused_defs,
        o.remove_dupl_linear_gradients,
        o.remove_dupl_radial_gradients,
        o.remove_invisible_elements,
        o.resolve_use,
        o.ungroup_groups,
        o.ungroup_defs,
        o.apply_transform_to_gradients,
        o.apply_transform_to_paths,
        o.apply_transform_to_shapes,
        o.coordinates_precision == 3,
        o.properties_precision == 3,
        o.transforms_precision == 3,
        o.paths_coordinates_precision == 3,
        !o.paths_to_relative,
        !o.convert_shapes,
{
    svgcleaner::CleaningOptions {
        remove_unreferenced_ids: true,
        remove_default_attributes: true,
        remove_desc: true,
        remove_unused_defs: true,
        convert_shapes: false,
        remove_title: true,
        remove_metadata: true,
        remove_dupl_linear_gradients: true,
        remove_dupl_radial_gradients: true,
        remove_dupl_fe_gaussian_blur: true,
        ungroup_groups: true,
        ungroup_defs: true,
        group_by_style: true,
        merge_gradients: true,
        regroup_gradient_stops: false,
        remove_invalid_stops: false,
        remove_invisible_elements: true,
        resolve_use: true,
        remove_version: true,
        trim_ids: true,
        remove_text_attributes: true,
        remove_unused_coordinates: true,
        remove_xmlns_xlink_attribute: true,
        remove_needless_attributes: true,
        apply_transform_to_gradients: true,
        apply_transform_to_paths: true,
        apply_transform_to_shapes: true,
        remove_gradient_attributes: true,
        remove_unused_segments: true,
        join_style_attributes: svgcleaner::StyleJoinMode::Some,
        coordinates_precision: 3,
        properties_precision: 3,
        transforms_precision: 3,
        paths_coordinates_precision: 3,
        paths_to_relative: false,
        convert_segments: false,
    }
}

/// The serialization configuration: no indention, double quotes, nothing
/// rewritten beyond what the cleaning pass decided.
pub fn write_policy() -> (o: svgdom::WriteOptions)
    ensures
        o.indent == svgdom::Indent::None,
        o.attributes_indent == svgdom::Indent::None,
        !o.use_single_quote,
        !o.use_compact_path_notation,
{
    svgdom::WriteOptions {
        indent: svgdom::Indent::None,
        use_single_quote: false,
        attributes_indent: svgdom::Indent::None,
        trim_hex_colors: false,
        write_hidden_attributes: false,
        remove_leading_zero: false,
        use_compact_path_notation: false,
        join_arc_to_flags: false,
        remove_duplicated_path_commands: false,
        use_implicit_lineto_commands: false,
        simplify_transform_matrices: false,
        list_separator: svgdom::ListSeparator::Space,
        attributes_order: svgdom::AttributesOrder::AsIs,
    }
}

/// The cleaned and described form of an SVG source: parsed, cleaned, with
/// `role="img"` set and a `title` element holding the alt text prepended,
/// then serialized; nothing if parsing, cleaning or the accessibility step
/// fails.  A function of the source and alt text alone.
pub uninterp spec fn svg_cleaned(source: Seq<char>, alt: Seq<char>) -> Option<Seq<char>>;

/// The cleaned text with every element id replaced by its `prefixed_id`
/// form under the given prefix; nothing if the cleaned text does not parse
/// back.  A function of the two arguments alone.
pub uninterp spec fn svg_ids_prefixed(cleaned: Seq<char>, prefix: Seq<char>) -> Option<Seq<char>>;

/// Relies on `svgcleaner::cleaner::parse_data` (default parse options),
/// `svgcleaner::cleaner::clean_doc` with this module's policies,
/// `svgdom::Node::set_attribute_checked` (`role="img"`),
/// `svgdom::Document::create_element`/`create_node`/`Node::append`/`prepend`
/// (the `title` element holding the alt text), and
/// `svgcleaner::cleaner::write_buffer`: the whole chain is deterministic in
/// (source, alt), and any failure in it yields `None`.
#[verifier::external_body]
fn clean_svg(source: &str, alt: &str) -> (r: Option<String>)
    ensures
        ({
            let o = svg_cleaned(source@, alt@);
            match r {
                Option::Some(s) => o matches Option::Some(c) && s@ == c,
                Option::None => o is None,
            }
        }),
{
    let mut doc = parse_data(source, &Default::default()).ok()?;
    clean_doc(&mut doc, &cleaning_policy(), &write_policy()).ok()?;
    let mut root = doc.svg_element()?;
    root.set_attribute_checked(("role", "img")).ok()?;
    let mut title = doc.create_element(svgdom::ElementId::Title);
    title.append(&doc.create_node(svgdom::NodeType::Text, alt));
    root.prepend(&title);
    let mut out = Vec::new();
    write_buffer(&doc, &write_policy(), &mut out);
    Some(String::from_utf8_lossy(&out).into_owned())
}

/// Relies on `svgcleaner::cleaner::parse_data`, `svgdom::Document::drain`
/// (dropping nodes that are neither elements nor text),
/// `svgdom::Document::descendants` with `Node::has_id`/`id`/`set_id`, and
/// `svgcleaner::cleaner::write_buffer`: every element id is rewritten to the
/// value the library's verified `prefixed_id` gives it, and the chain is
/// deterministic in (cleaned, prefix).
#[verifier::external_body]
fn prefix_svg_ids(cleaned: &str, prefix: &str) -> (r: Option<String>)
    ensures
        ({
            let o = svg_ids_prefixed(cleaned@, prefix@);
            match r {
                Option::Some(s) => o matches Option::Some(c) && s@ == c,
                Option::None => o is None,
            }
        }),
{
    let mut doc = parse_data(cleaned, &Default::default()).ok()?;
    doc.drain(|c| !matches!(c.node_type(), svgdom::NodeType::Element | svgdom::NodeType::Text));
    for (_, mut n) in doc.descendants().svg() {
        if n.has_id() {
            let id = prefixed_id(prefix, &n.id());
            n.set_id(id);
        }
    }
    let mut out = Vec::new();
    write_buffer(&doc, &write_policy(), &mut out);
    Some(String::from_utf8_lossy(&out).into_owned())
}

/// An element id under an id prefix: `<prefix>-<id>`.
pub open spec fn spec_prefixed_id(prefix: Seq<char>, id: Seq<char>) -> Seq<char> {
    prefix + "-"@ + id
}

/// Builds the prefixed form of an element id.
pub fn prefixed_id(prefix: &str, id: &str) -> (r: String)
    ensures
        r@ == spec_prefixed_id(prefix@, id@),
{
    let mut s = prefix.to_owned();
    s.append("-");
    let r = s.concat(id);
    proof {
        assert(r@ =~= spec_prefixed_id(prefix@, id@));
    }
    r
}

/// The 16-bit content hash of an SVG text, as id prefixes carry it.
pub open spec fn svg_hash16(text: Seq<char>) -> u64 {
    content_hash(encode_utf8(text)) & 0xffff
}

/// The id prefix of a cleaned SVG text: its 16-bit content hash as 4 hex
/// digits.
pub open spec fn spec_id_prefix(text: Seq<char>) -> Seq<char> {
    hex_seq(svg_hash16(text), 4)
}

/// Computes the id prefix for a cleaned SVG text.
pub fn id_prefix_for(text: &str) -> (r: String)
    ensures
        r@ == spec_id_prefix(text@),
{
    let h = crate::hashing::hash_bytes(text.as_bytes());
    let mut s = String::new();
    push_hex(&mut s, h & 0xffff, 4);
    proof {
        assert(s@ =~= spec_id_prefix(text@));
    }
    s
}

/// What optimizing an SVG source yields: the cleaned and described text with
/// ids prefixed by the 16-bit content hash of the cleaned text, or nothing
/// if any step fails.
pub open spec fn svg_optimized(source: Seq<char>, alt: Seq<char>) -> Option<Seq<char>> {
    match svg_cleaned(source, alt) {
        Option::Some(c) => svg_ids_prefixed(c, spec_id_prefix(c)),
        Option::None => Option::None,
    }
}

/// Optimizes an SVG source for inlining: parse, clean, set `role="img"`,
/// inject a `title` element holding the alt text, prefix every element id
/// with the cleaned text's content hash, and serialize.  If any step fails,
/// the source is inlined as it stands and the second component reports the
/// fallback.
pub fn optimize_svg(source: String, alt: &str) -> (r: (String, bool))
    ensures
        ({
            let o = svg_optimized(source@, alt@);
            match o {
                Option::Some(m) => !r.1 && r.0@ == m,
                Option::None => r.1 && r.0 == source,
            }
        }),
{
    let cleaned = match clean_svg(source.as_str(), alt) {
        Some(c) => c,
        None => {
            return (source, true);
        },
    };
    let prefix = id_prefix_for(cleaned.as_str());
    match prefix_svg_ids(cleaned.as_str(), prefix.as_str()) {
        Some(m) => (m, false),
        None => (source, true),
    }
}

/// Id safety of inlined SVGs: two cleaned texts whose 16-bit content hashes
/// differ give every element id distinct prefixed forms, so ids of the two
/// inlined documents cannot collide even if the original ids were equal.
pub proof fn lemma_svg_id_safety(c1: Seq<char>, c2: Seq<char>, id: Seq<char>)
    requires
        svg_hash16(c1) != svg_hash16(c2),
    ensures
        spec_prefixed_id(spec_id_prefix(c1), id) != spec_prefixed_id(spec_id_prefix(c2), id),
{
    let h1 = svg_hash16(c1);
    let h2 = svg_hash16(c2);
    assert(h1 < 0x10000 && h2 < 0x10000) by {
        let a = content_hash(encode_utf8(c1));
        let b = content_hash(encode_utf8(c2));
        assert(a & 0xffff < 0x10000) by (bit_vector);
        assert(b & 0xffff < 0x10000) by (bit_vector);
    }
    lemma_hex4_injective(h1, h2);
    let p1 = spec_prefixed_id(spec_id_prefix(c1), id);
    let p2 = spec_prefixed_id(spec_id_prefix(c2), id);
    if p1 == p2 {
        assert(hex_seq(h1, 4) =~= hex_seq(h2, 4)) by {
            assert forall|k: int| 0 <= k < 4 implies hex_seq(h1, 4)[k] == hex_seq(h2, 4)[k] by {
                assert(p1[k] == hex_seq(h1, 4)[k]);
                assert(p2[k] == hex_seq(h2, 4)[k]);
            }
        }
    }
}

} // verus!
