//! ISO 10303-21 (Part 21) text: string bodies, logicals, the product name a
//! file gives its solid, and the file frame around a numbered entity list.

use vstd::prelude::*;
use vstd::string::*;

use crate::text::{decimal, push_decimal};

verus! {

/// A Part 21 LOGICAL.
pub open spec fn spec_logical(b: bool) -> Seq<char> {
    if b {
        ".T."@
    } else {
        ".F."@
    }
}

/// A Part 21 LOGICAL: `.T.` or `.F.`.
pub fn logical(b: bool) -> (r: &'static str)
    ensures
        r@ == spec_logical(b),
{
    proof {
        reveal_strlit(".T.");
        reveal_strlit(".F.");
    }
    if b {
        ".T."
    } else {
        ".F."
    }
}

/// How one character is written in a Part 21 STRING body: `'` doubled,
/// printable ASCII kept, anything else replaced by `_`.
pub open spec fn step_char(c: char) -> Seq<char> {
    if c == '\'' {
        seq!['\'', '\'']
    } else if 0x20 <= (c as u32) <= 0x7e {
        seq![c]
    } else {
        seq!['_']
    }
}

/// The Part 21 STRING body of `s`.
pub open spec fn spec_step_string(s: Seq<char>) -> Seq<char>
    decreases s.len(),
{
    if s.len() == 0 {
        Seq::empty()
    } else {
        spec_step_string(s.drop_last()) + step_char(s.last())
    }
}

/// A Part 21 STRING body: `'` doubled; anything outside printable ASCII
/// replaced (names only; geometry never passes through here).
pub fn step_string(s: &str) -> (res: String)
    ensures
        res@ == spec_step_string(s@),
{
    let mut out = String::new();
    let n = s.unicode_len();
    let mut i: usize = 0;
    while i < n
        invariant
            n == s@.len(),
            i <= n,
            out@ == spec_step_string(s@.take(i as int)),
        decreases n - i,
    {
        let c = s.get_char(i);
        assert(s@.take(i + 1).drop_last() =~= s@.take(i as int));
        if c == '\'' {
            out.push('\'');
            out.push('\'');
        } else if ' ' <= c && c <= '~' {
            out.push(c);
        } else {
            out.push('_');
        }
        assert(out@ =~= spec_step_string(s@.take(i + 1)));
        i = i + 1;
    }
    assert(s@.take(n as int) =~= s@);
    out
}

/// `s` without the suffix `suf`, if it ends with it.
pub open spec fn without_suffix(s: Seq<char>, suf: Seq<char>) -> Option<Seq<char>> {
    if s.len() >= suf.len() && s.subrange(s.len() - suf.len(), s.len() as int) == suf {
        Some(s.take(s.len() - suf.len()))
    } else {
        None
    }
}

/// The product a file named `file_name` describes: the name without a
/// `.step` (else `.stp`) extension, `Part` when nothing is left.
pub open spec fn spec_product_name(file_name: Seq<char>) -> Seq<char> {
    let p = match without_suffix(file_name, ".step"@) {
        Some(x) => x,
        None => match without_suffix(file_name, ".stp"@) {
            Some(x) => x,
            None => file_name,
        },
    };
    if p.len() == 0 {
        "Part"@
    } else {
        p
    }
}

fn strip_suffix<'a>(s: &'a str, suf: &str) -> (res: Option<&'a str>)
    ensures
        match without_suffix(s@, suf@) {
            Some(x) => res matches Some(r) && r@ == x,
            None => res is None,
        },
{
    let n = s.unicode_len();
    let m = suf.unicode_len();
    if n >= m && crate::text::str_equal(s.substring_char(n - m, n), suf) {
        Some(s.substring_char(0, n - m))
    } else {
        None
    }
}

/// The product name a STEP file gives its solid (see [`spec_product_name`]).
pub fn product_name(file_name: &str) -> (res: String)
    ensures
        res@ == spec_product_name(file_name@),
{
    proof {
        reveal_strlit(".step");
        reveal_strlit(".stp");
        reveal_strlit("Part");
    }
    let p = match strip_suffix(file_name, ".step") {
        Some(x) => x,
        None => match strip_suffix(file_name, ".stp") {
            Some(x) => x,
            None => file_name,
        },
    };
    if p.unicode_len() == 0 {
        String::from_str("Part")
    } else {
        String::from_str(p)
    }
}

/// The entity lines of a Part 21 DATA section: body `i` is entity `#i+1`.
pub open spec fn entity_lines(bodies: Seq<Seq<char>>) -> Seq<char>
    decreases bodies.len(),
{
    if bodies.len() == 0 {
        Seq::empty()
    } else {
        entity_lines(bodies.drop_last()) + "#"@ + decimal(bodies.len()) + " = "@ + bodies.last()
            + ";\n"@
    }
}

/// The header section of a file named `file_name`.
pub open spec fn file_header(file_name: Seq<char>) -> Seq<char> {
    "ISO-10303-21;\nHEADER;\n"@
        + "FILE_DESCRIPTION(('Waffle Iron kernel-v2 exact B-Rep export'),'2;1');\n"@
        + "FILE_NAME('"@ + spec_step_string(file_name)
        + "','',(''),(''),'Waffle Iron kernel-v2','Waffle Iron','');\n"@
        + "FILE_SCHEMA(('AUTOMOTIVE_DESIGN { 1 0 10303 214 1 1 1 1 }'));\n"@
        + "ENDSEC;\nDATA;\n"@
}

/// A whole Part 21 file: header, the entities, and the trailer.
pub open spec fn spec_render(bodies: Seq<Seq<char>>, file_name: Seq<char>) -> Seq<char> {
    file_header(file_name) + entity_lines(bodies) + "ENDSEC;\nEND-ISO-10303-21;\n"@
}

/// The entity bodies of a Part 21 file being written; entity `#i` is the
/// `i`-th body added.
pub struct EntityList {
    entities: Vec<String>,
}

impl View for EntityList {
    type V = Seq<Seq<char>>;

    closed spec fn view(&self) -> Seq<Seq<char>> {
        self.entities@.map_values(|s: String| s@)
    }
}

impl EntityList {
    /// No entities yet.
    pub fn new() -> (res: EntityList)
        ensures
            res@ == Seq::<Seq<char>>::empty(),
    {
        let res = EntityList { entities: Vec::new() };
        assert(res@ =~= Seq::<Seq<char>>::empty());
        res
    }

    /// Adds an entity and returns its number.
    pub fn add(&mut self, body: String) -> (id: usize)
        ensures
            final(self)@ == old(self)@.push(body@),
            id == final(self)@.len(),
    {
        self.entities.push(body);
        assert(self@ =~= old(self)@.push(body@));
        self.entities.len()
    }

    /// The whole file text, the header naming `file_name`.
    pub fn render(&self, file_name: &str) -> (res: String)
        ensures
            res@ == spec_render(self@, file_name@),
    {
        proof {
            reveal_strlit("ISO-10303-21;\nHEADER;\n");
            reveal_strlit("FILE_DESCRIPTION(('Waffle Iron kernel-v2 exact B-Rep export'),'2;1');\n");
            reveal_strlit("FILE_NAME('");
            reveal_strlit("','',(''),(''),'Waffle Iron kernel-v2','Waffle Iron','');\n");
            reveal_strlit("FILE_SCHEMA(('AUTOMOTIVE_DESIGN { 1 0 10303 214 1 1 1 1 }'));\n");
            reveal_strlit("ENDSEC;\nDATA;\n");
        }
        let mut out = String::new();
        out.append("ISO-10303-21;\nHEADER;\n");
        out.append("FILE_DESCRIPTION(('Waffle Iron kernel-v2 exact B-Rep export'),'2;1');\n");
        out.append("FILE_NAME('");
        let name = step_string(file_name);
        out.append(name.as_str());
        out.append("','',(''),(''),'Waffle Iron kernel-v2','Waffle Iron','');\n");
        out.append("FILE_SCHEMA(('AUTOMOTIVE_DESIGN { 1 0 10303 214 1 1 1 1 }'));\n");
        out.append("ENDSEC;\nDATA;\n");
        let ghost head = out@;
        assert(head =~= file_header(file_name@));
        let n = self.entities.len();
        let mut i: usize = 0;
        while i < n
            invariant
                n == self.entities@.len(),
                i <= n,
                out@ == head + entity_lines(self@.take(i as int)),
            decreases n - i,
        {
            assert(self@.take(i + 1).drop_last() =~= self@.take(i as int));
            out.append("#");
            push_decimal(&mut out, i + 1);
            out.append(" = ");
            out.append(self.entities[i].as_str());
            out.append(";\n");
            assert(out@ =~= head + entity_lines(self@.take(i + 1)));
            i = i + 1;
        }
        assert(self@.take(n as int) =~= self@);
        out.append("ENDSEC;\nEND-ISO-10303-21;\n");
        out
    }
}

/// The ids of the product-structure entities a shape representation ties to.
#[derive(Debug, Clone, Copy, PartialEq, Eq)]
pub struct Skeleton {
    pub context: usize,
    pub product_definition_shape: usize,
    pub world_axis: usize,
}

/// The entity bodies of the AP214 product structure and of the unit and
/// uncertainty context, added after `n` entities: one product (named by its
/// STEP string), one definition, one shape, millimetres / radians /
/// steradians, the length uncertainty written as `tiny`, and the world axis
/// whose coordinates are written as `zero` and `one`.
pub open spec fn skeleton_bodies(
    product: Seq<char>,
    tiny: Seq<char>,
    zero: Seq<char>,
    one: Seq<char>,
    n: nat,
) -> Seq<Seq<char>> {
    let name = spec_step_string(product);
    seq![
        "APPLICATION_CONTEXT('core data for automotive mechanical design processes')"@,
        "APPLICATION_PROTOCOL_DEFINITION('international standard','automotive_design',2010,#"@ + decimal((n + 1) as nat) + ")"@,
        "PRODUCT_CONTEXT('',#"@ + decimal((n + 1) as nat) + ",'mechanical')"@,
        "PRODUCT('"@ + name + "','"@ + name + "','',(#"@ + decimal((n + 3) as nat) + "))"@,
        "PRODUCT_RELATED_PRODUCT_CATEGORY('part',$,(#"@ + decimal((n + 4) as nat) + "))"@,
        "PRODUCT_DEFINITION_FORMATION('','',#"@ + decimal((n + 4) as nat) + ")"@,
        "PRODUCT_DEFINITION_CONTEXT('part definition',#"@ + decimal((n + 1) as nat) + ",'design')"@,
        "PRODUCT_DEFINITION('design','',#"@ + decimal((n + 6) as nat) + ",#"@ + decimal((n + 7) as nat) + ")"@,
        "PRODUCT_DEFINITION_SHAPE('','',#"@ + decimal((n + 8) as nat) + ")"@,
        "( LENGTH_UNIT() NAMED_UNIT(*) SI_UNIT(.MILLI.,.METRE.) )"@,
        "( NAMED_UNIT(*) PLANE_ANGLE_UNIT() SI_UNIT($,.RADIAN.) )"@,
        "( NAMED_UNIT(*) SI_UNIT($,.STERADIAN.) SOLID_ANGLE_UNIT() )"@,
        "UNCERTAINTY_MEASURE_WITH_UNIT(LENGTH_MEASURE("@ + tiny + "),#"@ + decimal((n + 10) as nat) + ",'distance_accuracy_value','confusion accuracy')"@,
        "( GEOMETRIC_REPRESENTATION_CONTEXT(3) GLOBAL_UNCERTAINTY_ASSIGNED_CONTEXT((#"@ + decimal((n + 13) as nat) + ")) GLOBAL_UNIT_ASSIGNED_CONTEXT((#"@ + decimal((n + 10) as nat) + ",#"@ + decimal((n + 11) as nat) + ",#"@ + decimal((n + 12) as nat) + ")) REPRESENTATION_CONTEXT('','3D') )"@,
        "CARTESIAN_POINT('',("@ + zero + ","@ + zero + ","@ + zero + "))"@,
        "DIRECTION('',("@ + zero + ","@ + zero + ","@ + one + "))"@,
        "DIRECTION('',("@ + one + ","@ + zero + ","@ + zero + "))"@,
        "AXIS2_PLACEMENT_3D('',#"@ + decimal((n + 15) as nat) + ",#"@ + decimal((n + 16) as nat) + ",#"@ + decimal((n + 17) as nat) + ")"@,
    ]
}

/// Adds the AP214 product structure and the unit/uncertainty context every
/// reader needs to place the geometry (see [`skeleton_bodies`]). The REAL
/// values are given as their Part 21 text: the length uncertainty `tiny`,
/// and `zero` and `one` for the world axis.
pub fn product_skeleton(w: &mut EntityList, product: &str, tiny: &str, zero: &str, one: &str) -> (s:
    Skeleton)
    ensures
        final(w)@ == old(w)@ + skeleton_bodies(product@, tiny@, zero@, one@, old(w)@.len()),
        s.product_definition_shape == old(w)@.len() + 9,
        s.context == old(w)@.len() + 14,
        s.world_axis == old(w)@.len() + 18,
{
    let ghost n = w@.len();
    let ghost start = w@;
    let name = step_string(product);
    let mut b = String::new();
    b.append("APPLICATION_CONTEXT('core data for automotive mechanical design processes')");
    let id1 = w.add(b);
    let mut b = String::new();
    b.append("APPLICATION_PROTOCOL_DEFINITION('international standard','automotive_design',2010,#");
    push_decimal(&mut b, id1);
    b.append(")");
    let id2 = w.add(b);
    let mut b = String::new();
    b.append("PRODUCT_CONTEXT('',#");
    push_decimal(&mut b, id1);
    b.append(",'mechanical')");
    let id3 = w.add(b);
    let mut b = String::new();
    b.append("PRODUCT('");
    b.append(name.as_str());
    b.append("','");
    b.append(name.as_str());
    b.append("','',(#");
    push_decimal(&mut b, id3);
    b.append("))");
    let id4 = w.add(b);
    let mut b = String::new();
    b.append("PRODUCT_RELATED_PRODUCT_CATEGORY('part',$,(#");
    push_decimal(&mut b, id4);
    b.append("))");
    let id5 = w.add(b);
    let mut b = String::new();
    b.append("PRODUCT_DEFINITION_FORMATION('','',#");
    push_decimal(&mut b, id4);
    b.append(")");
    let id6 = w.add(b);
    let mut b = String::new();
    b.append("PRODUCT_DEFINITION_CONTEXT('part definition',#");
    push_decimal(&mut b, id1);
    b.append(",'design')");
    let id7 = w.add(b);
    let mut b = String::new();
    b.append("PRODUCT_DEFINITION('design','',#");
    push_decimal(&mut b, id6);
    b.append(",#");
    push_decimal(&mut b, id7);
    b.append(")");
    let id8 = w.add(b);
    let mut b = String::new();
    b.append("PRODUCT_DEFINITION_SHAPE('','',#");
    push_decimal(&mut b, id8);
    b.append(")");
    let id9 = w.add(b);
    let mut b = String::new();
    b.append("( LENGTH_UNIT() NAMED_UNIT(*) SI_UNIT(.MILLI.,.METRE.) )");
    let id10 = w.add(b);
    let mut b = String::new();
    b.append("( NAMED_UNIT(*) PLANE_ANGLE_UNIT() SI_UNIT($,.RADIAN.) )");
    let id11 = w.add(b);
    let mut b = String::new();
    b.append("( NAMED_UNIT(*) SI_UNIT($,.STERADIAN.) SOLID_ANGLE_UNIT() )");
    let id12 = w.add(b);
    let mut b = String::new();
    b.append("UNCERTAINTY_MEASURE_WITH_UNIT(LENGTH_MEASURE(");
    b.append(tiny);
    b.append("),#");
    push_decimal(&mut b, id10);
    b.append(",'distance_accuracy_value','confusion accuracy')");
    let id13 = w.add(b);
    let mut b = String::new();
    b.append("( GEOMETRIC_REPRESENTATION_CONTEXT(3) GLOBAL_UNCERTAINTY_ASSIGNED_CONTEXT((#");
    push_decimal(&mut b, id13);
    b.append(")) GLOBAL_UNIT_ASSIGNED_CONTEXT((#");
    push_decimal(&mut b, id10);
    b.append(",#");
    push_decimal(&mut b, id11);
    b.append(",#");
    push_decimal(&mut b, id12);
    b.append(")) REPRESENTATION_CONTEXT('','3D') )");
    let id14 = w.add(b);
    let mut b = String::new();
    b.append("CARTESIAN_POINT('',(");
    b.append(zero);
    b.append(",");
    b.append(zero);
    b.append(",");
    b.append(zero);
    b.append("))");
    let id15 = w.add(b);
    let mut b = String::new();
    b.append("DIRECTION('',(");
    b.append(zero);
    b.append(",");
    b.append(zero);
    b.append(",");
    b.append(one);
    b.append("))");
    let id16 = w.add(b);
    let mut b = String::new();
    b.append("DIRECTION('',(");
    b.append(one);
    b.append(",");
    b.append(zero);
    b.append(",");
    b.append(zero);
    b.append("))");
    let id17 = w.add(b);
    let mut b = String::new();
    b.append("AXIS2_PLACEMENT_3D('',#");
    push_decimal(&mut b, id15);
    b.append(",#");
    push_decimal(&mut b, id16);
    b.append(",#");
    push_decimal(&mut b, id17);
    b.append(")");
    let id18 = w.add(b);
    assert(w@ =~= start + skeleton_bodies(product@, tiny@, zero@, one@, n));
    Skeleton { context: id14, product_definition_shape: id9, world_axis: id18 }
}


/// Law: a skeleton written after any entities declares its lengths in
/// millimetres (the unit the writer's coordinates are in), its plane angles
/// in radians and its solid angles in steradians, as entities 10, 11 and 12
/// of the 18 it adds, and the product named after the given text.
pub proof fn law_skeleton_units_are_millimetre_radian_steradian(
    before: Seq<Seq<char>>,
    after: Seq<Seq<char>>,
    product: Seq<char>,
    tiny: Seq<char>,
    zero: Seq<char>,
    one: Seq<char>,
)
    requires
        after == before + skeleton_bodies(product, tiny, zero, one, before.len()),
    ensures
        after.len() == before.len() + 18,
        after.take(before.len() as int) == before,
        after[before.len() + 9int] == "( LENGTH_UNIT() NAMED_UNIT(*) SI_UNIT(.MILLI.,.METRE.) )"@,
        after[before.len() + 10int] == "( NAMED_UNIT(*) PLANE_ANGLE_UNIT() SI_UNIT($,.RADIAN.) )"@,
        after[before.len() + 11int] == "( NAMED_UNIT(*) SI_UNIT($,.STERADIAN.) SOLID_ANGLE_UNIT() )"@,
{
    assert(after.take(before.len() as int) =~= before);
}

} // verus!
