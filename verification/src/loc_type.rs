use vstd::prelude::*;
use crate::config_type::{
    more_to_read, read_pairs, read_pairs_into, read_signed_bytes, read_signed_bytes_into,
    read_u16s, read_u16s_into, ConfigType,
};
use crate::obj_type::{empty_actions, opt_string};
use crate::packet::{g1_at, g2_at, gjstr_at, gjstr_pos, pos_after, Packet};
use crate::param_helper::{
    decode_params, decode_params_spec, params_view, readable, ParamModel, Params, STRING_TERMINATOR,
};
use crate::script_file::g1_pos;

verus! {

/// The footprint and what it blocks.
pub struct LocCollision {
    pub width: u32,
    pub length: u32,
    pub blockwalk: u32,
    pub blockrange: bool,
    pub blocksides: u32,
    pub active: i8,
    pub walloff: u32,
    pub forcedecor: bool,
    pub breakroutefinding: bool,
    pub raiseobject: i32,
}

/// The contents of a `LocCollision`.
pub struct CollisionModel {
    pub width: u32,
    pub length: u32,
    pub blockwalk: u32,
    pub blockrange: bool,
    pub blocksides: u32,
    pub active: i8,
    pub walloff: u32,
    pub forcedecor: bool,
    pub breakroutefinding: bool,
    pub raiseobject: i32,
}

impl View for LocCollision {
    type V = CollisionModel;

    open spec fn view(&self) -> CollisionModel {
        CollisionModel {
            width: self.width,
            length: self.length,
            blockwalk: self.blockwalk,
            blockrange: self.blockrange,
            blocksides: self.blocksides,
            active: self.active,
            walloff: self.walloff,
            forcedecor: self.forcedecor,
            breakroutefinding: self.breakroutefinding,
            raiseobject: self.raiseobject,
        }
    }
}

/// The model offsets and how the ground bends under it.
pub struct LocGround {
    pub xoff: u32,
    pub yoff: u32,
    pub zoff: u32,
    pub hillchange: u32,
    pub hillchange_amount: i32,
}

/// The contents of a `LocGround`.
pub struct GroundModel {
    pub xoff: u32,
    pub yoff: u32,
    pub zoff: u32,
    pub hillchange: u32,
    pub hillchange_amount: i32,
}

impl View for LocGround {
    type V = GroundModel;

    open spec fn view(&self) -> GroundModel {
        GroundModel {
            xoff: self.xoff,
            yoff: self.yoff,
            zoff: self.zoff,
            hillchange: self.hillchange,
            hillchange_amount: self.hillchange_amount,
        }
    }
}

/// The recolourings and retexturings.
pub struct LocColours {
    pub recol_s: Vec<u16>,
    pub recol_d: Vec<u16>,
    pub retex_s: Vec<u16>,
    pub retex_d: Vec<u16>,
    pub recol_d_palette: Vec<i8>,
}

/// The contents of a `LocColours`.
pub struct ColoursModel {
    pub recol_s: Seq<u16>,
    pub recol_d: Seq<u16>,
    pub retex_s: Seq<u16>,
    pub retex_d: Seq<u16>,
    pub recol_d_palette: Seq<i8>,
}

impl View for LocColours {
    type V = ColoursModel;

    open spec fn view(&self) -> ColoursModel {
        ColoursModel {
            recol_s: self.recol_s@,
            recol_d: self.recol_d@,
            retex_s: self.retex_s@,
            retex_d: self.retex_d@,
            recol_d_palette: self.recol_d_palette@,
        }
    }
}

/// Lighting, shadows and the animation.
pub struct LocLighting {
    pub sharelight: bool,
    pub occlude: bool,
    pub anim: i32,
    pub ambient: i8,
    pub contrast: i16,
    pub shadow: bool,
    pub hardshadow: bool,
}

/// The contents of a `LocLighting`.
pub struct LightingModel {
    pub sharelight: bool,
    pub occlude: bool,
    pub anim: i32,
    pub ambient: i8,
    pub contrast: i16,
    pub shadow: bool,
    pub hardshadow: bool,
}

impl View for LocLighting {
    type V = LightingModel;

    open spec fn view(&self) -> LightingModel {
        LightingModel {
            sharelight: self.sharelight,
            occlude: self.occlude,
            anim: self.anim,
            ambient: self.ambient,
            contrast: self.contrast,
            shadow: self.shadow,
            hardshadow: self.hardshadow,
        }
    }
}

/// Scale, map function, mirroring and texturing.
pub struct LocForm {
    pub resizex: u32,
    pub resizey: u32,
    pub resizez: u32,
    pub mapfunction: i16,
    pub mirror: bool,
    pub istexture: bool,
}

/// The contents of a `LocForm`.
pub struct FormModel {
    pub resizex: u32,
    pub resizey: u32,
    pub resizez: u32,
    pub mapfunction: i16,
    pub mirror: bool,
    pub istexture: bool,
}

impl View for LocForm {
    type V = FormModel;

    open spec fn view(&self) -> FormModel {
        FormModel {
            resizex: self.resizex,
            resizey: self.resizey,
            resizez: self.resizez,
            mapfunction: self.mapfunction,
            mirror: self.mirror,
            istexture: self.istexture,
        }
    }
}

/// How it animates and renders under feet.
pub struct LocAnimation {
    pub randomanimframe: bool,
    pub renderunderfeet: bool,
    pub hasanimation: bool,
    pub animated: bool,
}

/// The contents of a `LocAnimation`.
pub struct AnimationModel {
    pub randomanimframe: bool,
    pub renderunderfeet: bool,
    pub hasanimation: bool,
    pub animated: bool,
}

impl View for LocAnimation {
    type V = AnimationModel;

    open spec fn view(&self) -> AnimationModel {
        AnimationModel {
            randomanimframe: self.randomanimframe,
            renderunderfeet: self.renderunderfeet,
            hasanimation: self.hasanimation,
            animated: self.animated,
        }
    }
}

/// The variable-dependent alternatives.
pub struct LocMulti {
    pub multivarbit: i32,
    pub multivarp: i32,
    pub multiloc: Vec<i32>,
}

/// The contents of a `LocMulti`.
pub struct MultiModel {
    pub multivarbit: i32,
    pub multivarp: i32,
    pub multiloc: Seq<i32>,
}

impl View for LocMulti {
    type V = MultiModel;

    open spec fn view(&self) -> MultiModel {
        MultiModel {
            multivarbit: self.multivarbit,
            multivarp: self.multivarp,
            multiloc: self.multiloc@,
        }
    }
}

/// The ambient sound.
pub struct LocSound {
    pub bgsound_sound: i32,
    pub bgsound_range: u8,
    pub bgsound_mindelay: u16,
    pub bgsound_maxdelay: u16,
    pub bgsound_random: Vec<u16>,
}

/// The contents of a `LocSound`.
pub struct SoundModel {
    pub bgsound_sound: i32,
    pub bgsound_range: u8,
    pub bgsound_mindelay: u16,
    pub bgsound_maxdelay: u16,
    pub bgsound_random: Seq<u16>,
}

impl View for LocSound {
    type V = SoundModel;

    open spec fn view(&self) -> SoundModel {
        SoundModel {
            bgsound_sound: self.bgsound_sound,
            bgsound_range: self.bgsound_range,
            bgsound_mindelay: self.bgsound_mindelay,
            bgsound_maxdelay: self.bgsound_maxdelay,
            bgsound_random: self.bgsound_random@,
        }
    }
}

/// Membership, the map icon and the cursors.
pub struct LocMap {
    pub members: bool,
    pub mapsceneiconrotate: bool,
    pub mapsceneiconrotationoffset: u8,
    pub mapsceneicon: i16,
    pub cursor1op: i8,
    pub cursor1: i32,
    pub cursor2op: i8,
    pub cursor2: i32,
}

/// The contents of a `LocMap`.
pub struct MapModel {
    pub members: bool,
    pub mapsceneiconrotate: bool,
    pub mapsceneiconrotationoffset: u8,
    pub mapsceneicon: i16,
    pub cursor1op: i8,
    pub cursor1: i32,
    pub cursor2op: i8,
    pub cursor2: i32,
}

impl View for LocMap {
    type V = MapModel;

    open spec fn view(&self) -> MapModel {
        MapModel {
            members: self.members,
            mapsceneiconrotate: self.mapsceneiconrotate,
            mapsceneiconrotationoffset: self.mapsceneiconrotationoffset,
            mapsceneicon: self.mapsceneicon,
            cursor1op: self.cursor1op,
            cursor1: self.cursor1,
            cursor2op: self.cursor2op,
            cursor2: self.cursor2,
        }
    }
}

/// A scenery (location) config: models, shapes, size, collision, actions, sounds and
/// parameters.
pub struct LocType {
    pub id: u32,
    pub debugname: Option<String>,
    pub models: Vec<u32>,
    pub ldmodels: Vec<u32>,
    pub shapes: Vec<u32>,
    pub ldshapes: Vec<u32>,
    pub name: Option<String>,
    pub description: Option<String>,
    pub op: Vec<String>,
    pub params: Params,
    pub collision: LocCollision,
    pub ground: LocGround,
    pub colours: LocColours,
    pub lighting: LocLighting,
    pub form: LocForm,
    pub animation: LocAnimation,
    pub multi: LocMulti,
    pub sound: LocSound,
    pub map: LocMap,
}

/// The contents of a `LocType`.
pub struct LocModel {
    pub id: u32,
    pub debugname: Option<Seq<char>>,
    pub models: Seq<u32>,
    pub ldmodels: Seq<u32>,
    pub shapes: Seq<u32>,
    pub ldshapes: Seq<u32>,
    pub name: Option<Seq<char>>,
    pub description: Option<Seq<char>>,
    pub op: Seq<Seq<char>>,
    pub params: Map<i32, ParamModel>,
    pub collision: CollisionModel,
    pub ground: GroundModel,
    pub colours: ColoursModel,
    pub lighting: LightingModel,
    pub form: FormModel,
    pub animation: AnimationModel,
    pub multi: MultiModel,
    pub sound: SoundModel,
    pub map: MapModel,
}

impl View for LocType {
    type V = LocModel;

    open spec fn view(&self) -> LocModel {
        LocModel {
            id: self.id,
            debugname: opt_string(self.debugname),
            models: self.models@,
            ldmodels: self.ldmodels@,
            shapes: self.shapes@,
            ldshapes: self.ldshapes@,
            name: opt_string(self.name),
            description: opt_string(self.description),
            op: self.op.deep_view(),
            params: params_view(&self.params),
            collision: self.collision@,
            ground: self.ground@,
            colours: self.colours@,
            lighting: self.lighting@,
            form: self.form@,
            animation: self.animation@,
            multi: self.multi@,
            sound: self.sound@,
            map: self.map@,
        }
    }
}

/// The scenery config `LocType::new(id)` makes: every field at its default.
pub open spec fn new_loc_model(id: u32) -> LocModel {
    LocModel {
        id: id,
        debugname: None,
        models: Seq::empty(),
        ldmodels: Seq::empty(),
        shapes: Seq::empty(),
        ldshapes: Seq::empty(),
        name: None,
        description: None,
        op: empty_actions(),
        params: Map::empty(),
        collision: CollisionModel {
            width: 1,
            length: 1,
            blockwalk: 2,
            blockrange: true,
            blocksides: 0,
            active: -1i8,
            walloff: 16,
            forcedecor: false,
            breakroutefinding: false,
            raiseobject: -1i32,
        },
        ground: GroundModel {
            xoff: 0,
            yoff: 0,
            zoff: 0,
            hillchange: 0,
            hillchange_amount: -1i32,
        },
        colours: ColoursModel {
            recol_s: Seq::empty(),
            recol_d: Seq::empty(),
            retex_s: Seq::empty(),
            retex_d: Seq::empty(),
            recol_d_palette: Seq::empty(),
        },
        lighting: LightingModel {
            sharelight: false,
            occlude: false,
            anim: -1i32,
            ambient: 0,
            contrast: 0,
            shadow: true,
            hardshadow: true,
        },
        form: FormModel {
            resizex: 128,
            resizey: 128,
            resizez: 128,
            mapfunction: -1i16,
            mirror: false,
            istexture: false,
        },
        animation: AnimationModel {
            randomanimframe: true,
            renderunderfeet: false,
            hasanimation: false,
            animated: false,
        },
        multi: MultiModel {
            multivarbit: -1i32,
            multivarp: -1i32,
            multiloc: Seq::empty(),
        },
        sound: SoundModel {
            bgsound_sound: -1i32,
            bgsound_range: 0,
            bgsound_mindelay: 0,
            bgsound_maxdelay: 0,
            bgsound_random: Seq::empty(),
        },
        map: MapModel {
            members: false,
            mapsceneiconrotate: false,
            mapsceneiconrotationoffset: 0,
            mapsceneicon: -1i16,
            cursor1op: -1i8,
            cursor1: -1i32,
            cursor2op: -1i8,
            cursor2: -1i32,
        },
    }
}

/// A two-byte identifier where 65535 stands for none (-1).
pub open spec fn optional_id(w: u16) -> i32 {
    if w == 65535 {
        -1i32
    } else {
        w as i32
    }
}

/// `n` models read from `p` (each a two-byte id, then a shape byte when `with_shapes`, else
/// shape 10), and the cursor.
pub open spec fn read_models(d: Seq<u8>, p: int, n: nat, with_shapes: bool) -> (
    Seq<u32>,
    Seq<u32>,
    int,
)
    decreases n,
{
    if n == 0 {
        (Seq::empty(), Seq::empty(), p)
    } else {
        let (ms, ss, q) = read_models(d, p, (n - 1) as nat, with_shapes);
        let q1 = pos_after(d, q, 2);
        if with_shapes {
            (ms.push(g2_at(d, q) as u32), ss.push(g1_at(d, q1) as u32), g1_pos(d, q1))
        } else {
            (ms.push(g2_at(d, q) as u32), ss.push(10), q1)
        }
    }
}

/// `n` optional identifiers read from `p`, and the cursor.
pub open spec fn read_ids(d: Seq<u8>, p: int, n: nat) -> (Seq<i32>, int)
    decreases n,
{
    if n == 0 {
        (Seq::empty(), p)
    } else {
        let (s, q) = read_ids(d, p, (n - 1) as nat);
        (s.push(optional_id(g2_at(d, q))), pos_after(d, q, 2))
    }
}

/// Whether the scenery opcode can be decoded into `m`: the action slot it inserts at exists.
pub open spec fn loc_decode_ok(m: LocModel, opcode: u8) -> bool {
    30 <= opcode <= 34 ==> opcode - 30 <= m.op.len()
}

/// The decoding of an opcode that carries a string.
pub open spec fn loc_text_spec(m: LocModel, opcode: u8, d: Seq<u8>, p: int) -> (LocModel, int) {
    let s = gjstr_at(d, p, STRING_TERMINATOR);
    let ps = gjstr_pos(d, p, STRING_TERMINATOR);
    if opcode == 2 {
        (LocModel { name: Some(s), ..m }, ps)
    } else if opcode == 250 {
        (LocModel { debugname: Some(s), ..m }, ps)
    } else {
        (LocModel { op: m.op.insert(opcode - 30, s), ..m }, ps)
    }
}

/// The decoding of an opcode that sets the models and their shapes.
pub open spec fn loc_models_spec(m: LocModel, opcode: u8, d: Seq<u8>, p: int) -> (LocModel, int) {
    let b1 = g1_at(d, p);
    let p1 = g1_pos(d, p);
    let (ms, ss, q) = read_models(d, p1, b1 as nat, opcode == 1);
    if m.models.len() == 0 {
        (LocModel { models: ms, shapes: ss, ..m }, q)
    } else {
        (LocModel { ldmodels: ms, ldshapes: ss, ..m }, q)
    }
}

/// The decoding of an opcode that sets the recolourings, retexturings or palette.
pub open spec fn loc_recolour_spec(m: LocModel, opcode: u8, d: Seq<u8>, p: int) -> (LocModel, int) {
    let b1 = g1_at(d, p);
    let p1 = g1_pos(d, p);
    if opcode == 40 {
        let (rs, rd, q) = read_pairs(m.colours.recol_s, m.colours.recol_d, d, p1, b1 as nat);
        (LocModel { colours: ColoursModel { recol_s: rs, recol_d: rd, ..m.colours }, ..m }, q)
    } else if opcode == 41 {
        let (rs, rd, q) = read_pairs(m.colours.retex_s, m.colours.retex_d, d, p1, b1 as nat);
        (LocModel { colours: ColoursModel { retex_s: rs, retex_d: rd, ..m.colours }, ..m }, q)
    } else {
        let (pal, q) = read_signed_bytes(m.colours.recol_d_palette, d, p1, b1 as nat);
        (LocModel { colours: ColoursModel { recol_d_palette: pal, ..m.colours }, ..m }, q)
    }
}

/// The decoding of an opcode that sets the variable-dependent alternatives.
pub open spec fn loc_multiloc_spec(m: LocModel, opcode: u8, d: Seq<u8>, p: int) -> (LocModel, int) {
    let w = g2_at(d, p);
    let p2 = pos_after(d, p, 2);
    let varp = g2_at(d, p2);
    let p3 = pos_after(d, p2, 2);
    let default_id = if opcode == 92 {
        optional_id(g2_at(d, p3))
    } else {
        -1i32
    };
    let p4 = if opcode == 92 {
        pos_after(d, p3, 2)
    } else {
        p3
    };
    let length = g1_at(d, p4);
    let (ids, q) = read_ids(d, g1_pos(d, p4), length as nat + 1);
    (
        LocModel { multi: MultiModel { multivarbit: optional_id(w), multivarp: optional_id(varp), multiloc: ids.push(default_id), ..m.multi }, ..m },
        q,
    )
}

/// The decoding of an opcode that sets the ambient sound.
pub open spec fn loc_sound_spec(m: LocModel, opcode: u8, d: Seq<u8>, p: int) -> (LocModel, int) {
    let w = g2_at(d, p);
    let p2 = pos_after(d, p, 2);
    if opcode == 79 {
        let maxdelay = g2_at(d, p2);
        let p3 = pos_after(d, p2, 2);
        let range = g1_at(d, p3);
        let p4 = g1_pos(d, p3);
        let length = g1_at(d, p4);
        let (sounds, q) = read_u16s(Seq::empty(), d, g1_pos(d, p4), length as nat);
        (
            LocModel { sound: SoundModel { bgsound_mindelay: w, bgsound_maxdelay: maxdelay, bgsound_range: range, bgsound_random: sounds, ..m.sound }, ..m },
            q,
        )
    } else {
        (LocModel { sound: SoundModel { bgsound_sound: w as i32, bgsound_range: g1_at(d, p2), ..m.sound }, ..m }, g1_pos(d, p2))
    }
}

/// The decoding of an opcode that sets the parameters.
pub open spec fn loc_params_spec(m: LocModel, opcode: u8, d: Seq<u8>, p: int) -> (LocModel, int) {
    let (params, q) = decode_params_spec(d, p);
    (LocModel { params, ..m }, q)
}

/// The decoding of an opcode that sets the size or the blocked sides.
pub open spec fn loc_size_spec(m: LocModel, opcode: u8, d: Seq<u8>, p: int) -> (LocModel, int) {
    let b1 = g1_at(d, p);
    let p1 = g1_pos(d, p);
    if opcode == 14 {
        (LocModel { collision: CollisionModel { width: b1 as u32, ..m.collision }, ..m }, p1)
    } else if opcode == 15 {
        (LocModel { collision: CollisionModel { length: b1 as u32, ..m.collision }, ..m }, p1)
    } else {
        (LocModel { collision: CollisionModel { blocksides: b1 as u32, ..m.collision }, ..m }, p1)
    }
}

/// The decoding of an opcode that sets what it blocks.
pub open spec fn loc_collision_spec(m: LocModel, opcode: u8, d: Seq<u8>, p: int) -> (LocModel, int) {
    if opcode == 17 {
        (LocModel { collision: CollisionModel { blockwalk: 0, blockrange: false, ..m.collision }, ..m }, p)
    } else if opcode == 18 {
        (LocModel { collision: CollisionModel { blockrange: false, ..m.collision }, ..m }, p)
    } else {
        (LocModel { collision: CollisionModel { blockwalk: 1, ..m.collision }, ..m }, p)
    }
}

/// The decoding of an opcode that sets whether it is interactive or its wall offset.
pub open spec fn loc_interaction_spec(m: LocModel, opcode: u8, d: Seq<u8>, p: int) -> (LocModel, int) {
    let b1 = g1_at(d, p);
    let p1 = g1_pos(d, p);
    if opcode == 19 {
        (LocModel { collision: CollisionModel { active: b1 as i8, ..m.collision }, ..m }, p1)
    } else {
        (LocModel { collision: CollisionModel { walloff: b1 as u32, ..m.collision }, ..m }, p1)
    }
}

/// The decoding of an opcode that sets the model offsets.
pub open spec fn loc_offset_spec(m: LocModel, opcode: u8, d: Seq<u8>, p: int) -> (LocModel, int) {
    let w = g2_at(d, p);
    let p2 = pos_after(d, p, 2);
    if opcode == 70 {
        (LocModel { ground: GroundModel { xoff: (w as i16) as u32, ..m.ground }, ..m }, p2)
    } else if opcode == 71 {
        (LocModel { ground: GroundModel { yoff: (w as i16) as u32, ..m.ground }, ..m }, p2)
    } else {
        (LocModel { ground: GroundModel { zoff: (w as i16) as u32, ..m.ground }, ..m }, p2)
    }
}

/// The decoding of an opcode that sets decoration, route finding or object raising.
pub open spec fn loc_routing_spec(m: LocModel, opcode: u8, d: Seq<u8>, p: int) -> (LocModel, int) {
    let b1 = g1_at(d, p);
    let p1 = g1_pos(d, p);
    if opcode == 73 {
        (LocModel { collision: CollisionModel { forcedecor: true, ..m.collision }, ..m }, p)
    } else if opcode == 74 {
        (LocModel { collision: CollisionModel { breakroutefinding: true, ..m.collision }, ..m }, p)
    } else {
        (LocModel { collision: CollisionModel { raiseobject: b1 as i32, ..m.collision }, ..m }, p1)
    }
}

/// The decoding of an opcode that sets how the ground bends under it.
pub open spec fn loc_ground_spec(m: LocModel, opcode: u8, d: Seq<u8>, p: int) -> (LocModel, int) {
    let b1 = g1_at(d, p);
    let p1 = g1_pos(d, p);
    let w = g2_at(d, p);
    let p2 = pos_after(d, p, 2);
    if opcode == 21 {
        (LocModel { ground: GroundModel { hillchange: 1, ..m.ground }, ..m }, p)
    } else if opcode == 81 {
        (LocModel { ground: GroundModel { hillchange: 2, hillchange_amount: (b1 as i32 * 256) as i32, ..m.ground }, ..m }, p1)
    } else {
        (LocModel { ground: GroundModel { hillchange: 3, hillchange_amount: w as i32, ..m.ground }, ..m }, p2)
    }
}

/// The decoding of an opcode that sets one of the other ground bendings.
pub open spec fn loc_ground_kind_spec(m: LocModel, opcode: u8, d: Seq<u8>, p: int) -> (LocModel, int) {
    if opcode == 94 {
        (LocModel { ground: GroundModel { hillchange: 4, ..m.ground }, ..m }, p)
    } else {
        (LocModel { ground: GroundModel { hillchange: 5, ..m.ground }, ..m }, p)
    }
}

/// The decoding of an opcode that sets light sharing, occlusion or the animation.
pub open spec fn loc_lighting_spec(m: LocModel, opcode: u8, d: Seq<u8>, p: int) -> (LocModel, int) {
    let w = g2_at(d, p);
    let p2 = pos_after(d, p, 2);
    if opcode == 22 {
        (LocModel { lighting: LightingModel { sharelight: true, ..m.lighting }, ..m }, p)
    } else if opcode == 23 {
        (LocModel { lighting: LightingModel { occlude: true, ..m.lighting }, ..m }, p)
    } else {
        (LocModel { lighting: LightingModel { anim: optional_id(w), ..m.lighting }, ..m }, p2)
    }
}

/// The decoding of an opcode that sets the ambient light or the contrast.
pub open spec fn loc_shading_spec(m: LocModel, opcode: u8, d: Seq<u8>, p: int) -> (LocModel, int) {
    let b1 = g1_at(d, p);
    let p1 = g1_pos(d, p);
    if opcode == 29 {
        (LocModel { lighting: LightingModel { ambient: b1 as i8, ..m.lighting }, ..m }, p1)
    } else {
        (LocModel { lighting: LightingModel { contrast: ((b1 as i8) as i16 * 5) as i16, ..m.lighting }, ..m }, p1)
    }
}

/// The decoding of an opcode that sets the map function, mirroring or the shadow.
pub open spec fn loc_map_function_spec(m: LocModel, opcode: u8, d: Seq<u8>, p: int) -> (LocModel, int) {
    let w = g2_at(d, p);
    let p2 = pos_after(d, p, 2);
    if opcode == 60 {
        (LocModel { form: FormModel { mapfunction: w as i16, ..m.form }, ..m }, p2)
    } else if opcode == 62 {
        (LocModel { form: FormModel { mirror: true, ..m.form }, ..m }, p)
    } else {
        (LocModel { lighting: LightingModel { shadow: false, ..m.lighting }, ..m }, p)
    }
}

/// The decoding of an opcode that sets the scale.
pub open spec fn loc_scale_spec(m: LocModel, opcode: u8, d: Seq<u8>, p: int) -> (LocModel, int) {
    let w = g2_at(d, p);
    let p2 = pos_after(d, p, 2);
    if opcode == 65 {
        (LocModel { form: FormModel { resizex: w as u32, ..m.form }, ..m }, p2)
    } else if opcode == 66 {
        (LocModel { form: FormModel { resizey: w as u32, ..m.form }, ..m }, p2)
    } else {
        (LocModel { form: FormModel { resizez: w as u32, ..m.form }, ..m }, p2)
    }
}

/// The decoding of an opcode that sets texturing, hard shadows or random animation frames.
pub open spec fn loc_texture_spec(m: LocModel, opcode: u8, d: Seq<u8>, p: int) -> (LocModel, int) {
    if opcode == 82 {
        (LocModel { form: FormModel { istexture: true, ..m.form }, ..m }, p)
    } else if opcode == 88 {
        (LocModel { lighting: LightingModel { hardshadow: false, ..m.lighting }, ..m }, p)
    } else {
        (LocModel { animation: AnimationModel { randomanimframe: false, ..m.animation }, ..m }, p)
    }
}

/// The decoding of an opcode that sets rendering under feet, membership or animation.
pub open spec fn loc_flags_spec(m: LocModel, opcode: u8, d: Seq<u8>, p: int) -> (LocModel, int) {
    if opcode == 90 {
        (LocModel { animation: AnimationModel { renderunderfeet: true, ..m.animation }, ..m }, p)
    } else if opcode == 91 {
        (LocModel { map: MapModel { members: true, ..m.map }, ..m }, p)
    } else {
        (LocModel { animation: AnimationModel { hasanimation: true, ..m.animation }, ..m }, p)
    }
}

/// The decoding of an opcode that sets the map icon rotation or the animated flag.
pub open spec fn loc_animation_spec(m: LocModel, opcode: u8, d: Seq<u8>, p: int) -> (LocModel, int) {
    if opcode == 97 {
        (LocModel { map: MapModel { mapsceneiconrotate: true, ..m.map }, ..m }, p)
    } else {
        (LocModel { animation: AnimationModel { animated: true, ..m.animation }, ..m }, p)
    }
}

/// The decoding of an opcode that sets a cursor.
pub open spec fn loc_cursor_spec(m: LocModel, opcode: u8, d: Seq<u8>, p: int) -> (LocModel, int) {
    let b1 = g1_at(d, p);
    let p1 = g1_pos(d, p);
    if opcode == 99 {
        (LocModel { map: MapModel { cursor1op: b1 as i8, cursor1: g2_at(d, p1) as i32, ..m.map }, ..m }, pos_after(d, p1, 2))
    } else {
        (LocModel { map: MapModel { cursor2op: b1 as i8, cursor2: g2_at(d, p1) as i32, ..m.map }, ..m }, pos_after(d, p1, 2))
    }
}

/// The decoding of an opcode that sets the map icon.
pub open spec fn loc_map_icon_spec(m: LocModel, opcode: u8, d: Seq<u8>, p: int) -> (LocModel, int) {
    let b1 = g1_at(d, p);
    let p1 = g1_pos(d, p);
    let w = g2_at(d, p);
    let p2 = pos_after(d, p, 2);
    if opcode == 101 {
        (LocModel { map: MapModel { mapsceneiconrotationoffset: b1, ..m.map }, ..m }, p1)
    } else {
        (LocModel { map: MapModel { mapsceneicon: w as i16, ..m.map }, ..m }, p2)
    }
}

pub open spec fn loc_decode_spec(m: LocModel, opcode: u8, d: Seq<u8>, p: int) -> (LocModel, int) {
    if is_loc_text_op(opcode) {
        loc_text_spec(m, opcode, d, p)
    } else if is_loc_models_op(opcode) {
        loc_models_spec(m, opcode, d, p)
    } else if is_loc_recolour_op(opcode) {
        loc_recolour_spec(m, opcode, d, p)
    } else if is_loc_multiloc_op(opcode) {
        loc_multiloc_spec(m, opcode, d, p)
    } else if is_loc_sound_op(opcode) {
        loc_sound_spec(m, opcode, d, p)
    } else if is_loc_params_op(opcode) {
        loc_params_spec(m, opcode, d, p)
    } else if is_loc_size_op(opcode) {
        loc_size_spec(m, opcode, d, p)
    } else if is_loc_collision_op(opcode) {
        loc_collision_spec(m, opcode, d, p)
    } else if is_loc_interaction_op(opcode) {
        loc_interaction_spec(m, opcode, d, p)
    } else if is_loc_offset_op(opcode) {
        loc_offset_spec(m, opcode, d, p)
    } else if is_loc_routing_op(opcode) {
        loc_routing_spec(m, opcode, d, p)
    } else if is_loc_ground_op(opcode) {
        loc_ground_spec(m, opcode, d, p)
    } else if is_loc_ground_kind_op(opcode) {
        loc_ground_kind_spec(m, opcode, d, p)
    } else if is_loc_lighting_op(opcode) {
        loc_lighting_spec(m, opcode, d, p)
    } else if is_loc_shading_op(opcode) {
        loc_shading_spec(m, opcode, d, p)
    } else if is_loc_map_function_op(opcode) {
        loc_map_function_spec(m, opcode, d, p)
    } else if is_loc_scale_op(opcode) {
        loc_scale_spec(m, opcode, d, p)
    } else if is_loc_texture_op(opcode) {
        loc_texture_spec(m, opcode, d, p)
    } else if is_loc_flags_op(opcode) {
        loc_flags_spec(m, opcode, d, p)
    } else if is_loc_animation_op(opcode) {
        loc_animation_spec(m, opcode, d, p)
    } else if is_loc_cursor_op(opcode) {
        loc_cursor_spec(m, opcode, d, p)
    } else if is_loc_map_icon_op(opcode) {
        loc_map_icon_spec(m, opcode, d, p)
    } else {
        (m, p)
    }
}

/// The scenery config after the opcode list at `p`, the cursor after it and the opcodes read.
pub open spec fn loc_decode_type_spec(m: LocModel, d: Seq<u8>, p: int) -> (LocModel, int, Seq<u8>)
    decreases d.len() - p,
{
    if !more_to_read(d, p) || p < 0 || p >= d.len() {
        (m, p, Seq::empty())
    } else {
        let opcode = g1_at(d, p);
        if opcode == 0 {
            (m, p + 1, seq![0u8])
        } else {
            let (m1, q) = loc_decode_spec(m, opcode, d, p + 1);
            if q <= p || q > d.len() {
                (m1, q, seq![opcode])
            } else {
                let (m2, r, ops) = loc_decode_type_spec(m1, d, q);
                (m2, r, seq![opcode] + ops)
            }
        }
    }
}

/// Whether every opcode of the list at `p` can be decoded into `m` and the ones after it.
pub open spec fn loc_type_ok(m: LocModel, d: Seq<u8>, p: int) -> bool
    decreases d.len() - p,
{
    if !more_to_read(d, p) || p < 0 || p >= d.len() {
        true
    } else {
        let opcode = g1_at(d, p);
        if opcode == 0 {
            true
        } else {
            let (m1, q) = loc_decode_spec(m, opcode, d, p + 1);
            &&& loc_decode_ok(m, opcode)
            &&& p < q <= d.len() ==> loc_type_ok(m1, d, q)
        }
    }
}

/// Whether the scenery opcode carries a string.
pub open spec fn is_loc_text_op(opcode: u8) -> bool {
    opcode == 2 || 30 <= opcode <= 34 || opcode == 250
}

/// Whether the scenery opcode carries a string.
fn is_loc_text_opcode(opcode: u8) -> (b: bool)
    ensures
        b == is_loc_text_op(opcode),
{
    opcode == 2 || (30 <= opcode && opcode <= 34) || opcode == 250
}

/// Whether the scenery opcode sets the models and their shapes.
pub open spec fn is_loc_models_op(opcode: u8) -> bool {
    opcode == 1 || opcode == 5
}

/// Whether the scenery opcode sets the models and their shapes.
fn is_loc_models_opcode(opcode: u8) -> (b: bool)
    ensures
        b == is_loc_models_op(opcode),
{
    opcode == 1 || opcode == 5
}

/// Whether the scenery opcode sets the recolourings, retexturings or palette.
pub open spec fn is_loc_recolour_op(opcode: u8) -> bool {
    opcode == 40 || opcode == 41 || opcode == 42
}

/// Whether the scenery opcode sets the recolourings, retexturings or palette.
fn is_loc_recolour_opcode(opcode: u8) -> (b: bool)
    ensures
        b == is_loc_recolour_op(opcode),
{
    opcode == 40 || opcode == 41 || opcode == 42
}

/// Whether the scenery opcode sets the variable-dependent alternatives.
pub open spec fn is_loc_multiloc_op(opcode: u8) -> bool {
    opcode == 77 || opcode == 92
}

/// Whether the scenery opcode sets the variable-dependent alternatives.
fn is_loc_multiloc_opcode(opcode: u8) -> (b: bool)
    ensures
        b == is_loc_multiloc_op(opcode),
{
    opcode == 77 || opcode == 92
}

/// Whether the scenery opcode sets the ambient sound.
pub open spec fn is_loc_sound_op(opcode: u8) -> bool {
    opcode == 78 || opcode == 79
}

/// Whether the scenery opcode sets the ambient sound.
fn is_loc_sound_opcode(opcode: u8) -> (b: bool)
    ensures
        b == is_loc_sound_op(opcode),
{
    opcode == 78 || opcode == 79
}

/// Whether the scenery opcode sets the parameters.
pub open spec fn is_loc_params_op(opcode: u8) -> bool {
    opcode == 249
}

/// Whether the scenery opcode sets the parameters.
fn is_loc_params_opcode(opcode: u8) -> (b: bool)
    ensures
        b == is_loc_params_op(opcode),
{
    opcode == 249
}

/// Whether the scenery opcode sets the size or the blocked sides.
pub open spec fn is_loc_size_op(opcode: u8) -> bool {
    opcode == 14 || opcode == 15 || opcode == 69
}

/// Whether the scenery opcode sets the size or the blocked sides.
fn is_loc_size_opcode(opcode: u8) -> (b: bool)
    ensures
        b == is_loc_size_op(opcode),
{
    opcode == 14 || opcode == 15 || opcode == 69
}

/// Whether the scenery opcode sets what it blocks.
pub open spec fn is_loc_collision_op(opcode: u8) -> bool {
    opcode == 17 || opcode == 18 || opcode == 27
}

/// Whether the scenery opcode sets what it blocks.
fn is_loc_collision_opcode(opcode: u8) -> (b: bool)
    ensures
        b == is_loc_collision_op(opcode),
{
    opcode == 17 || opcode == 18 || opcode == 27
}

/// Whether the scenery opcode sets whether it is interactive or its wall offset.
pub open spec fn is_loc_interaction_op(opcode: u8) -> bool {
    opcode == 19 || opcode == 28
}

/// Whether the scenery opcode sets whether it is interactive or its wall offset.
fn is_loc_interaction_opcode(opcode: u8) -> (b: bool)
    ensures
        b == is_loc_interaction_op(opcode),
{
    opcode == 19 || opcode == 28
}

/// Whether the scenery opcode sets the model offsets.
pub open spec fn is_loc_offset_op(opcode: u8) -> bool {
    opcode == 70 || opcode == 71 || opcode == 72
}

/// Whether the scenery opcode sets the model offsets.
fn is_loc_offset_opcode(opcode: u8) -> (b: bool)
    ensures
        b == is_loc_offset_op(opcode),
{
    opcode == 70 || opcode == 71 || opcode == 72
}

/// Whether the scenery opcode sets decoration, route finding or object raising.
pub open spec fn is_loc_routing_op(opcode: u8) -> bool {
    opcode == 73 || opcode == 74 || opcode == 75
}

/// Whether the scenery opcode sets decoration, route finding or object raising.
fn is_loc_routing_opcode(opcode: u8) -> (b: bool)
    ensures
        b == is_loc_routing_op(opcode),
{
    opcode == 73 || opcode == 74 || opcode == 75
}

/// Whether the scenery opcode sets how the ground bends under it.
pub open spec fn is_loc_ground_op(opcode: u8) -> bool {
    opcode == 21 || opcode == 81 || opcode == 93
}

/// Whether the scenery opcode sets how the ground bends under it.
fn is_loc_ground_opcode(opcode: u8) -> (b: bool)
    ensures
        b == is_loc_ground_op(opcode),
{
    opcode == 21 || opcode == 81 || opcode == 93
}

/// Whether the scenery opcode sets one of the other ground bendings.
pub open spec fn is_loc_ground_kind_op(opcode: u8) -> bool {
    opcode == 94 || opcode == 95
}

/// Whether the scenery opcode sets one of the other ground bendings.
fn is_loc_ground_kind_opcode(opcode: u8) -> (b: bool)
    ensures
        b == is_loc_ground_kind_op(opcode),
{
    opcode == 94 || opcode == 95
}

/// Whether the scenery opcode sets light sharing, occlusion or the animation.
pub open spec fn is_loc_lighting_op(opcode: u8) -> bool {
    opcode == 22 || opcode == 23 || opcode == 24
}

/// Whether the scenery opcode sets light sharing, occlusion or the animation.
fn is_loc_lighting_opcode(opcode: u8) -> (b: bool)
    ensures
        b == is_loc_lighting_op(opcode),
{
    opcode == 22 || opcode == 23 || opcode == 24
}

/// Whether the scenery opcode sets the ambient light or the contrast.
pub open spec fn is_loc_shading_op(opcode: u8) -> bool {
    opcode == 29 || opcode == 39
}

/// Whether the scenery opcode sets the ambient light or the contrast.
fn is_loc_shading_opcode(opcode: u8) -> (b: bool)
    ensures
        b == is_loc_shading_op(opcode),
{
    opcode == 29 || opcode == 39
}

/// Whether the scenery opcode sets the map function, mirroring or the shadow.
pub open spec fn is_loc_map_function_op(opcode: u8) -> bool {
    opcode == 60 || opcode == 62 || opcode == 64
}

/// Whether the scenery opcode sets the map function, mirroring or the shadow.
fn is_loc_map_function_opcode(opcode: u8) -> (b: bool)
    ensures
        b == is_loc_map_function_op(opcode),
{
    opcode == 60 || opcode == 62 || opcode == 64
}

/// Whether the scenery opcode sets the scale.
pub open spec fn is_loc_scale_op(opcode: u8) -> bool {
    opcode == 65 || opcode == 66 || opcode == 67
}

/// Whether the scenery opcode sets the scale.
fn is_loc_scale_opcode(opcode: u8) -> (b: bool)
    ensures
        b == is_loc_scale_op(opcode),
{
    opcode == 65 || opcode == 66 || opcode == 67
}

/// Whether the scenery opcode sets texturing, hard shadows or random animation frames.
pub open spec fn is_loc_texture_op(opcode: u8) -> bool {
    opcode == 82 || opcode == 88 || opcode == 89
}

/// Whether the scenery opcode sets texturing, hard shadows or random animation frames.
fn is_loc_texture_opcode(opcode: u8) -> (b: bool)
    ensures
        b == is_loc_texture_op(opcode),
{
    opcode == 82 || opcode == 88 || opcode == 89
}

/// Whether the scenery opcode sets rendering under feet, membership or animation.
pub open spec fn is_loc_flags_op(opcode: u8) -> bool {
    opcode == 90 || opcode == 91 || opcode == 96
}

/// Whether the scenery opcode sets rendering under feet, membership or animation.
fn is_loc_flags_opcode(opcode: u8) -> (b: bool)
    ensures
        b == is_loc_flags_op(opcode),
{
    opcode == 90 || opcode == 91 || opcode == 96
}

/// Whether the scenery opcode sets the map icon rotation or the animated flag.
pub open spec fn is_loc_animation_op(opcode: u8) -> bool {
    opcode == 97 || opcode == 98
}

/// Whether the scenery opcode sets the map icon rotation or the animated flag.
fn is_loc_animation_opcode(opcode: u8) -> (b: bool)
    ensures
        b == is_loc_animation_op(opcode),
{
    opcode == 97 || opcode == 98
}

/// Whether the scenery opcode sets a cursor.
pub open spec fn is_loc_cursor_op(opcode: u8) -> bool {
    opcode == 99 || opcode == 100
}

/// Whether the scenery opcode sets a cursor.
fn is_loc_cursor_opcode(opcode: u8) -> (b: bool)
    ensures
        b == is_loc_cursor_op(opcode),
{
    opcode == 99 || opcode == 100
}

/// Whether the scenery opcode sets the map icon.
pub open spec fn is_loc_map_icon_op(opcode: u8) -> bool {
    opcode == 101 || opcode == 102
}

/// Whether the scenery opcode sets the map icon.
fn is_loc_map_icon_opcode(opcode: u8) -> (b: bool)
    ensures
        b == is_loc_map_icon_op(opcode),
{
    opcode == 101 || opcode == 102
}

/// Reads `count` models (with their shape bytes when `with_shapes`, else shape 10).
fn read_models_into(packet: &mut Packet, count: u8, with_shapes: bool) -> (r: (Vec<u32>, Vec<u32>))
    requires
        readable(old(packet)),
    ensures
        (r.0@, r.1@, final(packet).position as int) == read_models(
            old(packet).data@,
            old(packet).position as int,
            count as nat,
            with_shapes,
        ),
        final(packet).data@ == old(packet).data@,
        readable(final(packet)),
        final(packet).position >= old(packet).position,
{
    let ghost d = packet.data@;
    let ghost q0 = packet.position as int;
    let mut models: Vec<u32> = Vec::with_capacity(count as usize);
    let mut shapes: Vec<u32> = Vec::with_capacity(count as usize);
    let mut i: u8 = 0;
    while i < count
        invariant
            packet.data@ == d,
            readable(packet),
            packet.position >= q0,
            i <= count,
            (models@, shapes@, packet.position as int) == read_models(d, q0, i as nat, with_shapes),
        decreases count - i,
    {
        let model = packet.g2() as u32;
        models.push(model);
        if with_shapes {
            let shape = packet.g1() as u32;
            shapes.push(shape);
        } else {
            shapes.push(10);
        }
        i += 1;
    }
    (models, shapes)
}

/// Reads `count` optional identifiers (65535 read as -1).
fn read_ids_into(packet: &mut Packet, count: u16) -> (ids: Vec<i32>)
    requires
        readable(old(packet)),
    ensures
        (ids@, final(packet).position as int) == read_ids(
            old(packet).data@,
            old(packet).position as int,
            count as nat,
        ),
        final(packet).data@ == old(packet).data@,
        readable(final(packet)),
        final(packet).position >= old(packet).position,
{
    let ghost d = packet.data@;
    let ghost q0 = packet.position as int;
    let mut ids: Vec<i32> = Vec::with_capacity(count as usize + 1);
    let mut i: u16 = 0;
    while i < count
        invariant
            packet.data@ == d,
            readable(packet),
            packet.position >= q0,
            i <= count,
            (ids@, packet.position as int) == read_ids(d, q0, i as nat),
        decreases count - i,
    {
        let mut value = packet.g2() as i32;
        if value == 65535 {
            value = -1;
        }
        ids.push(value);
        i += 1;
    }
    ids
}

/// Five empty action names.
fn empty_action_names() -> (v: Vec<String>)
    ensures
        v.deep_view() == empty_actions(),
{
    let mut v: Vec<String> = Vec::new();
    let mut i: usize = 0;
    while i < 5
        invariant
            i <= 5,
            v@.len() == i,
            forall|j: int| 0 <= j < i ==> (#[trigger] v@[j])@ == Seq::<char>::empty(),
        decreases 5 - i,
    {
        v.push(String::new());
        i += 1;
    }
    assert(v.deep_view() =~= empty_actions());
    v
}

impl LocType {
    /// A scenery config with identifier `id` and every other field at its default.
    pub fn new(id: u32) -> (l: LocType)
        ensures
            l@ == new_loc_model(id),
    {
        let l = LocType {
            id,
            debugname: None,
            models: Vec::new(),
            ldmodels: Vec::new(),
            shapes: Vec::new(),
            ldshapes: Vec::new(),
            name: None,
            description: None,
            op: empty_action_names(),
            params: Params::new(),
            collision: LocCollision {
                width: 1,
                length: 1,
                blockwalk: 2,
                blockrange: true,
                blocksides: 0,
                active: -1,
                walloff: 16,
                forcedecor: false,
                breakroutefinding: false,
                raiseobject: -1,
            },
            ground: LocGround {
                xoff: 0,
                yoff: 0,
                zoff: 0,
                hillchange: 0,
                hillchange_amount: -1,
            },
            colours: LocColours {
                recol_s: Vec::new(),
                recol_d: Vec::new(),
                retex_s: Vec::new(),
                retex_d: Vec::new(),
                recol_d_palette: Vec::new(),
            },
            lighting: LocLighting {
                sharelight: false,
                occlude: false,
                anim: -1,
                ambient: 0,
                contrast: 0,
                shadow: true,
                hardshadow: true,
            },
            form: LocForm {
                resizex: 128,
                resizey: 128,
                resizez: 128,
                mapfunction: -1,
                mirror: false,
                istexture: false,
            },
            animation: LocAnimation {
                randomanimframe: true,
                renderunderfeet: false,
                hasanimation: false,
                animated: false,
            },
            multi: LocMulti {
                multivarbit: -1,
                multivarp: -1,
                multiloc: Vec::new(),
            },
            sound: LocSound {
                bgsound_sound: -1,
                bgsound_range: 0,
                bgsound_mindelay: 0,
                bgsound_maxdelay: 0,
                bgsound_random: Vec::new(),
            },
            map: LocMap {
                members: false,
                mapsceneiconrotate: false,
                mapsceneiconrotationoffset: 0,
                mapsceneicon: -1,
                cursor1op: -1,
                cursor1: -1,
                cursor2op: -1,
                cursor2: -1,
            },
        };
        assert(params_view(&l.params) =~= Map::<i32, ParamModel>::empty());
        assert(l@ == new_loc_model(id));
        l
    }

    /// Reads the data of an opcode that carries a string.
    fn decode_text(&mut self, opcode: u8, packet: &mut Packet)
        requires
            readable(old(packet)),
            loc_decode_ok(old(self)@, opcode),
            opcode == 2 || 30 <= opcode <= 34 || opcode == 250,
        ensures
            final(self)@ == loc_text_spec(old(self)@, opcode, old(packet).data@, old(packet).position as int).0,
            final(packet).position == loc_text_spec(
                old(self)@,
                opcode,
                old(packet).data@,
                old(packet).position as int,
            ).1,
            final(packet).data@ == old(packet).data@,
            readable(final(packet)),
            final(packet).position >= old(packet).position,
    {
        let ghost m = self@;
        let ghost d = packet.data@;
        let ghost p = packet.position as int;
        match opcode {
            2 => {
                self.name = Some(packet.gjstr(STRING_TERMINATOR));
            },
            30 | 31 | 32 | 33 | 34 => {
                let text = packet.gjstr(STRING_TERMINATOR);
                let ghost t = text@;
                self.op.insert((opcode - 30) as usize, text);
                assert(self.op.deep_view() =~= m.op.insert(opcode - 30, t));
            },
            250 => {
                self.debugname = Some(packet.gjstr(STRING_TERMINATOR));
            },
            _ => {},
        }
    }

    /// Reads the data of an opcode that sets the models and their shapes.
    fn decode_models(&mut self, opcode: u8, packet: &mut Packet)
        requires
            readable(old(packet)),
            opcode == 1 || opcode == 5,
        ensures
            final(self)@ == loc_models_spec(old(self)@, opcode, old(packet).data@, old(packet).position as int).0,
            final(packet).position == loc_models_spec(
                old(self)@,
                opcode,
                old(packet).data@,
                old(packet).position as int,
            ).1,
            final(packet).data@ == old(packet).data@,
            readable(final(packet)),
            final(packet).position >= old(packet).position,
    {
        let count = packet.g1();
        let (models, shapes) = read_models_into(packet, count, opcode == 1);
        if self.models.len() == 0 {
            self.models = models;
            self.shapes = shapes;
        } else {
            self.ldmodels = models;
            self.ldshapes = shapes;
        }
    }

    /// Reads the data of an opcode that sets the recolourings, retexturings or palette.
    fn decode_recolour(&mut self, opcode: u8, packet: &mut Packet)
        requires
            readable(old(packet)),
            opcode == 40 || opcode == 41 || opcode == 42,
        ensures
            final(self)@ == loc_recolour_spec(old(self)@, opcode, old(packet).data@, old(packet).position as int).0,
            final(packet).position == loc_recolour_spec(
                old(self)@,
                opcode,
                old(packet).data@,
                old(packet).position as int,
            ).1,
            final(packet).data@ == old(packet).data@,
            readable(final(packet)),
            final(packet).position >= old(packet).position,
    {
        match opcode {
            40 => {
                let count = packet.g1();
                read_pairs_into(packet, &mut self.colours.recol_s, &mut self.colours.recol_d, count);
            },
            41 => {
                let count = packet.g1();
                read_pairs_into(packet, &mut self.colours.retex_s, &mut self.colours.retex_d, count);
            },
            _ => {
                let count = packet.g1();
                read_signed_bytes_into(packet, &mut self.colours.recol_d_palette, count);
            },
        }
    }

    /// Reads the data of an opcode that sets the variable-dependent alternatives.
    fn decode_multiloc(&mut self, opcode: u8, packet: &mut Packet)
        requires
            readable(old(packet)),
            opcode == 77 || opcode == 92,
        ensures
            final(self)@ == loc_multiloc_spec(old(self)@, opcode, old(packet).data@, old(packet).position as int).0,
            final(packet).position == loc_multiloc_spec(
                old(self)@,
                opcode,
                old(packet).data@,
                old(packet).position as int,
            ).1,
            final(packet).data@ == old(packet).data@,
            readable(final(packet)),
            final(packet).position >= old(packet).position,
    {
        self.multi.multivarbit = packet.g2() as i32;
        if self.multi.multivarbit == 65535 {
            self.multi.multivarbit = -1;
        }
        self.multi.multivarp = packet.g2() as i32;
        if self.multi.multivarp == 65535 {
            self.multi.multivarp = -1;
        }
        let mut default_id: i32 = -1;
        if opcode == 92 {
            default_id = packet.g2() as i32;
            if default_id == 65535 {
                default_id = -1;
            }
        }
        let length = packet.g1();
        let mut multiloc = read_ids_into(packet, length as u16 + 1);
        multiloc.push(default_id);
        self.multi.multiloc = multiloc;
    }

    /// Reads the data of an opcode that sets the ambient sound.
    fn decode_sound(&mut self, opcode: u8, packet: &mut Packet)
        requires
            readable(old(packet)),
            opcode == 78 || opcode == 79,
        ensures
            final(self)@ == loc_sound_spec(old(self)@, opcode, old(packet).data@, old(packet).position as int).0,
            final(packet).position == loc_sound_spec(
                old(self)@,
                opcode,
                old(packet).data@,
                old(packet).position as int,
            ).1,
            final(packet).data@ == old(packet).data@,
            readable(final(packet)),
            final(packet).position >= old(packet).position,
    {
        match opcode {
            78 => {
                self.sound.bgsound_sound = packet.g2() as i32;
                self.sound.bgsound_range = packet.g1();
            },
            _ => {
                self.sound.bgsound_mindelay = packet.g2();
                self.sound.bgsound_maxdelay = packet.g2();
                self.sound.bgsound_range = packet.g1();
                let length = packet.g1();
                let mut sounds: Vec<u16> = Vec::with_capacity(length as usize);
                read_u16s_into(packet, &mut sounds, length as usize);
                self.sound.bgsound_random = sounds;
            },
        }
    }

    /// Reads the data of an opcode that sets the parameters.
    fn decode_param_table(&mut self, opcode: u8, packet: &mut Packet)
        requires
            readable(old(packet)),
            opcode == 249,
        ensures
            final(self)@ == loc_params_spec(old(self)@, opcode, old(packet).data@, old(packet).position as int).0,
            final(packet).position == loc_params_spec(
                old(self)@,
                opcode,
                old(packet).data@,
                old(packet).position as int,
            ).1,
            final(packet).data@ == old(packet).data@,
            readable(final(packet)),
            final(packet).position >= old(packet).position,
    {
        self.params = decode_params(packet);
    }

    /// Reads the data of an opcode that sets the size or the blocked sides.
    fn decode_size(&mut self, opcode: u8, packet: &mut Packet)
        requires
            readable(old(packet)),
            opcode == 14 || opcode == 15 || opcode == 69,
        ensures
            final(self)@ == loc_size_spec(old(self)@, opcode, old(packet).data@, old(packet).position as int).0,
            final(packet).position == loc_size_spec(
                old(self)@,
                opcode,
                old(packet).data@,
                old(packet).position as int,
            ).1,
            final(packet).data@ == old(packet).data@,
            readable(final(packet)),
            final(packet).position >= old(packet).position,
    {
        match opcode {
            14 => {
                self.collision.width = packet.g1() as u32;
            },
            15 => {
                self.collision.length = packet.g1() as u32;
            },
            _ => {
                self.collision.blocksides = packet.g1() as u32;
            },
        }
    }

    /// Reads the data of an opcode that sets what it blocks.
    fn decode_collision(&mut self, opcode: u8, packet: &mut Packet)
        requires
            readable(old(packet)),
            opcode == 17 || opcode == 18 || opcode == 27,
        ensures
            final(self)@ == loc_collision_spec(old(self)@, opcode, old(packet).data@, old(packet).position as int).0,
            final(packet).position == loc_collision_spec(
                old(self)@,
                opcode,
                old(packet).data@,
                old(packet).position as int,
            ).1,
            final(packet).data@ == old(packet).data@,
            readable(final(packet)),
            final(packet).position >= old(packet).position,
    {
        match opcode {
            17 => {
                self.collision.blockwalk = 0;
                self.collision.blockrange = false;
            },
            18 => {
                self.collision.blockrange = false;
            },
            _ => {
                self.collision.blockwalk = 1;
            },
        }
    }

    /// Reads the data of an opcode that sets whether it is interactive or its wall offset.
    fn decode_interaction(&mut self, opcode: u8, packet: &mut Packet)
        requires
            readable(old(packet)),
            opcode == 19 || opcode == 28,
        ensures
            final(self)@ == loc_interaction_spec(old(self)@, opcode, old(packet).data@, old(packet).position as int).0,
            final(packet).position == loc_interaction_spec(
                old(self)@,
                opcode,
                old(packet).data@,
                old(packet).position as int,
            ).1,
            final(packet).data@ == old(packet).data@,
            readable(final(packet)),
            final(packet).position >= old(packet).position,
    {
        match opcode {
            19 => {
                self.collision.active = packet.g1() as i8;
            },
            _ => {
                self.collision.walloff = packet.g1() as u32;
            },
        }
    }

    /// Reads the data of an opcode that sets the model offsets.
    fn decode_offset(&mut self, opcode: u8, packet: &mut Packet)
        requires
            readable(old(packet)),
            opcode == 70 || opcode == 71 || opcode == 72,
        ensures
            final(self)@ == loc_offset_spec(old(self)@, opcode, old(packet).data@, old(packet).position as int).0,
            final(packet).position == loc_offset_spec(
                old(self)@,
                opcode,
                old(packet).data@,
                old(packet).position as int,
            ).1,
            final(packet).data@ == old(packet).data@,
            readable(final(packet)),
            final(packet).position >= old(packet).position,
    {
        match opcode {
            70 => {
                self.ground.xoff = packet.g2s() as u32;
            },
            71 => {
                self.ground.yoff = packet.g2s() as u32;
            },
            _ => {
                self.ground.zoff = packet.g2s() as u32;
            },
        }
    }

    /// Reads the data of an opcode that sets decoration, route finding or object raising.
    fn decode_routing(&mut self, opcode: u8, packet: &mut Packet)
        requires
            readable(old(packet)),
            opcode == 73 || opcode == 74 || opcode == 75,
        ensures
            final(self)@ == loc_routing_spec(old(self)@, opcode, old(packet).data@, old(packet).position as int).0,
            final(packet).position == loc_routing_spec(
                old(self)@,
                opcode,
                old(packet).data@,
                old(packet).position as int,
            ).1,
            final(packet).data@ == old(packet).data@,
            readable(final(packet)),
            final(packet).position >= old(packet).position,
    {
        match opcode {
            73 => {
                self.collision.forcedecor = true;
            },
            74 => {
                self.collision.breakroutefinding = true;
            },
            _ => {
                self.collision.raiseobject = packet.g1() as i32;
            },
        }
    }

    /// Reads the data of an opcode that sets how the ground bends under it.
    fn decode_ground(&mut self, opcode: u8, packet: &mut Packet)
        requires
            readable(old(packet)),
            opcode == 21 || opcode == 81 || opcode == 93,
        ensures
            final(self)@ == loc_ground_spec(old(self)@, opcode, old(packet).data@, old(packet).position as int).0,
            final(packet).position == loc_ground_spec(
                old(self)@,
                opcode,
                old(packet).data@,
                old(packet).position as int,
            ).1,
            final(packet).data@ == old(packet).data@,
            readable(final(packet)),
            final(packet).position >= old(packet).position,
    {
        match opcode {
            21 => {
                self.ground.hillchange = 1;
            },
            81 => {
                self.ground.hillchange = 2;
                self.ground.hillchange_amount = packet.g1() as i32 * 256;
            },
            _ => {
                self.ground.hillchange = 3;
                self.ground.hillchange_amount = packet.g2() as i32;
            },
        }
    }

    /// Reads the data of an opcode that sets one of the other ground bendings.
    fn decode_ground_kind(&mut self, opcode: u8, packet: &mut Packet)
        requires
            readable(old(packet)),
            opcode == 94 || opcode == 95,
        ensures
            final(self)@ == loc_ground_kind_spec(old(self)@, opcode, old(packet).data@, old(packet).position as int).0,
            final(packet).position == loc_ground_kind_spec(
                old(self)@,
                opcode,
                old(packet).data@,
                old(packet).position as int,
            ).1,
            final(packet).data@ == old(packet).data@,
            readable(final(packet)),
            final(packet).position >= old(packet).position,
    {
        match opcode {
            94 => {
                self.ground.hillchange = 4;
            },
            _ => {
                self.ground.hillchange = 5;
            },
        }
    }

    /// Reads the data of an opcode that sets light sharing, occlusion or the animation.
    fn decode_lighting(&mut self, opcode: u8, packet: &mut Packet)
        requires
            readable(old(packet)),
            opcode == 22 || opcode == 23 || opcode == 24,
        ensures
            final(self)@ == loc_lighting_spec(old(self)@, opcode, old(packet).data@, old(packet).position as int).0,
            final(packet).position == loc_lighting_spec(
                old(self)@,
                opcode,
                old(packet).data@,
                old(packet).position as int,
            ).1,
            final(packet).data@ == old(packet).data@,
            readable(final(packet)),
            final(packet).position >= old(packet).position,
    {
        match opcode {
            22 => {
                self.lighting.sharelight = true;
            },
            23 => {
                self.lighting.occlude = true;
            },
            _ => {
                self.lighting.anim = packet.g2() as i32;
                if self.lighting.anim == 65535 {
                    self.lighting.anim = -1;
                }
            },
        }
    }

    /// Reads the data of an opcode that sets the ambient light or the contrast.
    fn decode_shading(&mut self, opcode: u8, packet: &mut Packet)
        requires
            readable(old(packet)),
            opcode == 29 || opcode == 39,
        ensures
            final(self)@ == loc_shading_spec(old(self)@, opcode, old(packet).data@, old(packet).position as int).0,
            final(packet).position == loc_shading_spec(
                old(self)@,
                opcode,
                old(packet).data@,
                old(packet).position as int,
            ).1,
            final(packet).data@ == old(packet).data@,
            readable(final(packet)),
            final(packet).position >= old(packet).position,
    {
        match opcode {
            29 => {
                self.lighting.ambient = packet.g1b();
            },
            _ => {
                self.lighting.contrast = packet.g1b() as i16 * 5;
            },
        }
    }

    /// Reads the data of an opcode that sets the map function, mirroring or the shadow.
    fn decode_map_function(&mut self, opcode: u8, packet: &mut Packet)
        requires
            readable(old(packet)),
            opcode == 60 || opcode == 62 || opcode == 64,
        ensures
            final(self)@ == loc_map_function_spec(old(self)@, opcode, old(packet).data@, old(packet).position as int).0,
            final(packet).position == loc_map_function_spec(
                old(self)@,
                opcode,
                old(packet).data@,
                old(packet).position as int,
            ).1,
            final(packet).data@ == old(packet).data@,
            readable(final(packet)),
            final(packet).position >= old(packet).position,
    {
        match opcode {
            60 => {
                self.form.mapfunction = packet.g2() as i16;
            },
            62 => {
                self.form.mirror = true;
            },
            _ => {
                self.lighting.shadow = false;
            },
        }
    }

    /// Reads the data of an opcode that sets the scale.
    fn decode_scale(&mut self, opcode: u8, packet: &mut Packet)
        requires
            readable(old(packet)),
            opcode == 65 || opcode == 66 || opcode == 67,
        ensures
            final(self)@ == loc_scale_spec(old(self)@, opcode, old(packet).data@, old(packet).position as int).0,
            final(packet).position == loc_scale_spec(
                old(self)@,
                opcode,
                old(packet).data@,
                old(packet).position as int,
            ).1,
            final(packet).data@ == old(packet).data@,
            readable(final(packet)),
            final(packet).position >= old(packet).position,
    {
        match opcode {
            65 => {
                self.form.resizex = packet.g2() as u32;
            },
            66 => {
                self.form.resizey = packet.g2() as u32;
            },
            _ => {
                self.form.resizez = packet.g2() as u32;
            },
        }
    }

    /// Reads the data of an opcode that sets texturing, hard shadows or random animation frames.
    fn decode_texture(&mut self, opcode: u8, packet: &mut Packet)
        requires
            readable(old(packet)),
            opcode == 82 || opcode == 88 || opcode == 89,
        ensures
            final(self)@ == loc_texture_spec(old(self)@, opcode, old(packet).data@, old(packet).position as int).0,
            final(packet).position == loc_texture_spec(
                old(self)@,
                opcode,
                old(packet).data@,
                old(packet).position as int,
            ).1,
            final(packet).data@ == old(packet).data@,
            readable(final(packet)),
            final(packet).position >= old(packet).position,
    {
        match opcode {
            82 => {
                self.form.istexture = true;
            },
            88 => {
                self.lighting.hardshadow = false;
            },
            _ => {
                self.animation.randomanimframe = false;
            },
        }
    }

    /// Reads the data of an opcode that sets rendering under feet, membership or animation.
    fn decode_flags(&mut self, opcode: u8, packet: &mut Packet)
        requires
            readable(old(packet)),
            opcode == 90 || opcode == 91 || opcode == 96,
        ensures
            final(self)@ == loc_flags_spec(old(self)@, opcode, old(packet).data@, old(packet).position as int).0,
            final(packet).position == loc_flags_spec(
                old(self)@,
                opcode,
                old(packet).data@,
                old(packet).position as int,
            ).1,
            final(packet).data@ == old(packet).data@,
            readable(final(packet)),
            final(packet).position >= old(packet).position,
    {
        match opcode {
            90 => {
                self.animation.renderunderfeet = true;
            },
            91 => {
                self.map.members = true;
            },
            _ => {
                self.animation.hasanimation = true;
            },
        }
    }

    /// Reads the data of an opcode that sets the map icon rotation or the animated flag.
    fn decode_animation(&mut self, opcode: u8, packet: &mut Packet)
        requires
            readable(old(packet)),
            opcode == 97 || opcode == 98,
        ensures
            final(self)@ == loc_animation_spec(old(self)@, opcode, old(packet).data@, old(packet).position as int).0,
            final(packet).position == loc_animation_spec(
                old(self)@,
                opcode,
                old(packet).data@,
                old(packet).position as int,
            ).1,
            final(packet).data@ == old(packet).data@,
            readable(final(packet)),
            final(packet).position >= old(packet).position,
    {
        match opcode {
            97 => {
                self.map.mapsceneiconrotate = true;
            },
            _ => {
                self.animation.animated = true;
            },
        }
    }

    /// Reads the data of an opcode that sets a cursor.
    fn decode_cursor(&mut self, opcode: u8, packet: &mut Packet)
        requires
            readable(old(packet)),
            opcode == 99 || opcode == 100,
        ensures
            final(self)@ == loc_cursor_spec(old(self)@, opcode, old(packet).data@, old(packet).position as int).0,
            final(packet).position == loc_cursor_spec(
                old(self)@,
                opcode,
                old(packet).data@,
                old(packet).position as int,
            ).1,
            final(packet).data@ == old(packet).data@,
            readable(final(packet)),
            final(packet).position >= old(packet).position,
    {
        match opcode {
            99 => {
                self.map.cursor1op = packet.g1() as i8;
                self.map.cursor1 = packet.g2() as i32;
            },
            _ => {
                self.map.cursor2op = packet.g1() as i8;
                self.map.cursor2 = packet.g2() as i32;
            },
        }
    }

    /// Reads the data of an opcode that sets the map icon.
    fn decode_map_icon(&mut self, opcode: u8, packet: &mut Packet)
        requires
            readable(old(packet)),
            opcode == 101 || opcode == 102,
        ensures
            final(self)@ == loc_map_icon_spec(old(self)@, opcode, old(packet).data@, old(packet).position as int).0,
            final(packet).position == loc_map_icon_spec(
                old(self)@,
                opcode,
                old(packet).data@,
                old(packet).position as int,
            ).1,
            final(packet).data@ == old(packet).data@,
            readable(final(packet)),
            final(packet).position >= old(packet).position,
    {
        match opcode {
            101 => {
                self.map.mapsceneiconrotationoffset = packet.g1();
            },
            _ => {
                self.map.mapsceneicon = packet.g2() as i16;
            },
        }
    }

}

impl ConfigType for LocType {
    open spec fn decode_ok(&self, opcode: u8) -> bool {
        loc_decode_ok(self@, opcode)
    }

    open spec fn type_ok(&self, d: Seq<u8>, p: int) -> bool {
        loc_type_ok(self@, d, p)
    }

    fn id(&self) -> (id: u32)
        ensures
            id == self.id,
    {
        self.id
    }

    fn debugname(&self) -> (r: Option<&String>)
        ensures
            r matches Some(s) ==> self@.debugname == Some(s@),
            r is None ==> self@.debugname is None,
    {
        self.debugname.as_ref()
    }

    fn set_debugname(&mut self, debugname: String)
        ensures
            final(self)@ == (LocModel { debugname: Some(debugname@), ..old(self)@ }),
    {
        self.debugname = Some(debugname);
    }

    fn decode(&mut self, opcode: u8, packet: &mut Packet)
        ensures
            (final(self)@, final(packet).position as int) == loc_decode_spec(
                old(self)@,
                opcode,
                old(packet).data@,
                old(packet).position as int,
            ),
    {
        if is_loc_text_opcode(opcode) {
            self.decode_text(opcode, packet);
        } else if is_loc_models_opcode(opcode) {
            self.decode_models(opcode, packet);
        } else if is_loc_recolour_opcode(opcode) {
            self.decode_recolour(opcode, packet);
        } else if is_loc_multiloc_opcode(opcode) {
            self.decode_multiloc(opcode, packet);
        } else if is_loc_sound_opcode(opcode) {
            self.decode_sound(opcode, packet);
        } else if is_loc_params_opcode(opcode) {
            self.decode_param_table(opcode, packet);
        } else if is_loc_size_opcode(opcode) {
            self.decode_size(opcode, packet);
        } else if is_loc_collision_opcode(opcode) {
            self.decode_collision(opcode, packet);
        } else if is_loc_interaction_opcode(opcode) {
            self.decode_interaction(opcode, packet);
        } else if is_loc_offset_opcode(opcode) {
            self.decode_offset(opcode, packet);
        } else if is_loc_routing_opcode(opcode) {
            self.decode_routing(opcode, packet);
        } else if is_loc_ground_opcode(opcode) {
            self.decode_ground(opcode, packet);
        } else if is_loc_ground_kind_opcode(opcode) {
            self.decode_ground_kind(opcode, packet);
        } else if is_loc_lighting_opcode(opcode) {
            self.decode_lighting(opcode, packet);
        } else if is_loc_shading_opcode(opcode) {
            self.decode_shading(opcode, packet);
        } else if is_loc_map_function_opcode(opcode) {
            self.decode_map_function(opcode, packet);
        } else if is_loc_scale_opcode(opcode) {
            self.decode_scale(opcode, packet);
        } else if is_loc_texture_opcode(opcode) {
            self.decode_texture(opcode, packet);
        } else if is_loc_flags_opcode(opcode) {
            self.decode_flags(opcode, packet);
        } else if is_loc_animation_opcode(opcode) {
            self.decode_animation(opcode, packet);
        } else if is_loc_cursor_opcode(opcode) {
            self.decode_cursor(opcode, packet);
        } else if is_loc_map_icon_opcode(opcode) {
            self.decode_map_icon(opcode, packet);
        }
    }

    fn decode_type(&mut self, packet: &mut Packet, opcode_order: &mut Vec<u8>)
        ensures
            ({
                let (m, q, ops) = loc_decode_type_spec(
                    old(self)@,
                    old(packet).data@,
                    old(packet).position as int,
                );
                &&& final(self)@ == m
                &&& final(packet).position == q
                &&& final(opcode_order)@ == old(opcode_order)@ + ops
            }),
    {
        let ghost m0 = self@;
        let ghost d = packet.data@;
        let ghost p0 = packet.position as int;
        let ghost o0 = opcode_order@;
        let ghost total = loc_decode_type_spec(m0, d, p0);
        loop
            invariant_except_break
                loc_type_ok(self@, d, packet.position as int),
                ({
                    let (m, q, ops) = loc_decode_type_spec(self@, d, packet.position as int);
                    &&& m == total.0
                    &&& q == total.1
                    &&& o0 + total.2 == opcode_order@ + ops
                }),
            invariant
                packet.data@ == d,
                readable(packet),
            ensures
                self@ == total.0,
                packet.position == total.1,
                opcode_order@ == o0 + total.2,
            decreases d.len() - packet.position,
        {
            let ghost before = opcode_order@;
            if packet.remaining() <= 0 {
                assert(opcode_order@ + Seq::<u8>::empty() =~= opcode_order@);
                break;
            }
            let opcode = packet.g1();
            opcode_order.push(opcode);
            if opcode == 0 {
                assert(before + seq![0u8] =~= opcode_order@);
                break;
            }
            self.decode(opcode, packet);
            proof {
                let rest = loc_decode_type_spec(self@, d, packet.position as int).2;
                assert(before + (seq![opcode] + rest) =~= opcode_order@ + rest);
            }
        }
    }
}

} // verus!
