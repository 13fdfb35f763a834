//! Display options of the 3D view and the render decisions they drive.

use vstd::prelude::*;

verus! {

/// How surfaces are shaded.
#[derive(Clone, Copy, Debug, PartialEq, Eq, Structural)]
pub enum ShadingMode {
    Lit,
    Unlit,
    Normals,
}

impl Default for ShadingMode {
    /// Unlit shading unless chosen otherwise.
    fn default() -> (r: Self)
        ensures
            r == ShadingMode::Unlit,
    {
        ShadingMode::Unlit
    }
}

impl ShadingMode {
    /// Returns the label displayed for this shading mode in the UI.
    pub fn label(self) -> (r: &'static str)
        ensures
            r@ == (match self {
                ShadingMode::Lit => "Lit"@,
                ShadingMode::Unlit => "Unlit"@,
                ShadingMode::Normals => "Normals"@,
            }),
    {
        match self {
            ShadingMode::Lit => "Lit",
            ShadingMode::Unlit => "Unlit",
            ShadingMode::Normals => "Normals",
        }
    }
}

/// Whether a layer (vertex colors, collision shapes) is hidden, shown, or
/// shown alone.
#[derive(Clone, Copy, Debug, PartialEq, Eq, Structural)]
pub enum DisplayMode {
    Off,
    On,
    Only,
}

impl DisplayMode {
    /// Every display mode, in menu order.
    pub const ALL: [DisplayMode; 3] = [DisplayMode::Off, DisplayMode::On, DisplayMode::Only];

    /// Returns the label displayed for this display mode in the UI.
    pub fn label(self) -> (r: &'static str)
        ensures
            r@ == (match self {
                DisplayMode::Off => "Off"@,
                DisplayMode::On => "On"@,
                DisplayMode::Only => "Only"@,
            }),
    {
        match self {
            DisplayMode::Off => "Off",
            DisplayMode::On => "On",
            DisplayMode::Only => "Only",
        }
    }
}

/// The view controls chosen in the UI.
#[derive(Clone, Copy, Debug, PartialEq, Eq, Structural)]
pub struct ViewState {
    pub shading_mode: ShadingMode,
    pub vertex_colors: DisplayMode,
    pub collision: DisplayMode,
    pub wireframe: bool,
}

impl Default for ViewState {
    /// Unlit shading with vertex colors, collision shapes hidden, no wireframe.
    fn default() -> (r: Self)
        ensures
            r == (ViewState {
                shading_mode: ShadingMode::Unlit,
                vertex_colors: DisplayMode::On,
                collision: DisplayMode::Off,
                wireframe: false,
            }),
    {
        ViewState {
            shading_mode: ShadingMode::Unlit,
            vertex_colors: DisplayMode::On,
            collision: DisplayMode::Off,
            wireframe: false,
        }
    }
}

/// An immutable renderer-facing snapshot of the view controls.
#[derive(Clone, Copy, Debug, PartialEq, Eq, Structural)]
pub struct ViewOptions {
    pub shading_mode: ShadingMode,
    pub vertex_colors: DisplayMode,
    pub collision: DisplayMode,
    pub wireframe: bool,
}

impl ViewOptions {
    /// Takes a snapshot of the selected view controls.
    pub fn from_state(state: &ViewState) -> (r: ViewOptions)
        ensures
            r.shading_mode == state.shading_mode,
            r.vertex_colors == state.vertex_colors,
            r.collision == state.collision,
            r.wireframe == state.wireframe,
    {
        ViewOptions {
            shading_mode: state.shading_mode,
            vertex_colors: state.vertex_colors,
            collision: state.collision,
            wireframe: state.wireframe,
        }
    }
}

/// The prepared variants of a loaded mesh.
#[derive(Clone, Copy, Debug, PartialEq, Eq, Structural)]
pub enum MeshVariant {
    /// Without vertex colors.
    Uncolored,
    /// With the file's vertex colors (white where it has none).
    VertexColor,
    /// Colored by surface normals.
    Normal,
}

/// Selects the mesh variant needed for the current shading and vertex-color options.
pub fn mesh_variant_for(options: ViewOptions) -> (r: MeshVariant)
    ensures
        r == (if options.shading_mode == ShadingMode::Normals {
            MeshVariant::Normal
        } else if options.vertex_colors != DisplayMode::Off {
            MeshVariant::VertexColor
        } else {
            MeshVariant::Uncolored
        }),
{
    match options.shading_mode {
        ShadingMode::Normals => MeshVariant::Normal,
        _ => match options.vertex_colors {
            DisplayMode::Off => MeshVariant::Uncolored,
            _ => MeshVariant::VertexColor,
        },
    }
}

/// The shader switches of a mesh's material.
#[derive(Clone, Copy, Debug, PartialEq, Eq, Structural)]
pub struct MaterialFlags {
    pub use_texture: bool,
    pub use_vertex_colors: bool,
    pub unlit: bool,
}

/// The shader switches for the selected view options: normals shading always
/// uses the (normal) vertex colors and never the texture; vertex colors shown
/// alone hide the texture and disable lighting.
pub fn material_flags_for(options: ViewOptions) -> (r: MaterialFlags)
    ensures
        r.use_vertex_colors == (options.shading_mode == ShadingMode::Normals
            || options.vertex_colors != DisplayMode::Off),
        r.use_texture == (options.shading_mode != ShadingMode::Normals
            && options.vertex_colors != DisplayMode::Only),
        r.unlit == (options.shading_mode != ShadingMode::Lit
            || options.vertex_colors == DisplayMode::Only),
{
    let normals = match options.shading_mode {
        ShadingMode::Normals => true,
        _ => false,
    };
    let lit = match options.shading_mode {
        ShadingMode::Lit => true,
        _ => false,
    };
    let colors_off = match options.vertex_colors {
        DisplayMode::Off => true,
        _ => false,
    };
    let colors_only = match options.vertex_colors {
        DisplayMode::Only => true,
        _ => false,
    };
    MaterialFlags {
        use_texture: !normals && !colors_only,
        use_vertex_colors: normals || !colors_off,
        unlit: !lit || colors_only,
    }
}

/// Whether an entity is drawn.
#[derive(Clone, Copy, Debug, PartialEq, Eq, Structural)]
pub enum Visibility {
    Inherited,
    Hidden,
    Visible,
}

/// Whether a regular or collision entity is drawn for a collision display mode:
/// `Off` hides collision shapes, `Only` hides everything else, `On` hides nothing.
pub fn visibility_for(display_mode: DisplayMode, is_collision: bool) -> (r: Visibility)
    ensures
        r == (if (display_mode == DisplayMode::Off && is_collision)
            || (display_mode == DisplayMode::Only && !is_collision) {
            Visibility::Hidden
        } else {
            Visibility::Inherited
        }),
{
    match display_mode {
        DisplayMode::Off => if is_collision {
            Visibility::Hidden
        } else {
            Visibility::Inherited
        },
        DisplayMode::Only => if !is_collision {
            Visibility::Hidden
        } else {
            Visibility::Inherited
        },
        DisplayMode::On => Visibility::Inherited,
    }
}

/// The wireframe overlay drawn over one shape of a loaded NIF.
#[derive(Clone, Copy, Debug, PartialEq, Eq, Structural)]
pub struct LoadedNifWireframe {
    /// Whether the shape belongs to a collision subtree.
    pub is_collision: bool,
    /// The index of the shape's node in the NIF.
    pub nif_node_index: usize,
}

/// Whether a shape's wireframe overlay is drawn: hidden unless the wireframe
/// option is on, then as the shape itself.
pub fn wireframe_visibility(options: ViewOptions, wireframe: &LoadedNifWireframe) -> (r: Visibility)
    ensures
        r == (if options.wireframe {
            visibility_for_spec(options.collision, wireframe.is_collision)
        } else {
            Visibility::Hidden
        }),
{
    if options.wireframe {
        visibility_for(options.collision, wireframe.is_collision)
    } else {
        Visibility::Hidden
    }
}

/// The visibility that `visibility_for` gives.
pub open spec fn visibility_for_spec(display_mode: DisplayMode, is_collision: bool) -> Visibility {
    if (display_mode == DisplayMode::Off && is_collision) || (display_mode == DisplayMode::Only
        && !is_collision) {
        Visibility::Hidden
    } else {
        Visibility::Inherited
    }
}

/// How a wireframe overlay is drawn when a node may be selected.
#[derive(Clone, Copy, Debug, PartialEq, Eq, Structural)]
pub struct WireframeHighlight {
    /// Drawn in the highlight color rather than black.
    pub highlighted: bool,
    pub visibility: Visibility,
}

/// The selected node's wireframe is highlighted and always shown; any other
/// wireframe is black and shown only when the wireframe option is on.
pub fn wireframe_highlight(overlay: &LoadedNifWireframe, selected_node: Option<usize>, wireframe: bool) -> (r:
    WireframeHighlight)
    ensures
        r.highlighted == (selected_node == Some(overlay.nif_node_index)),
        r.visibility == (if selected_node == Some(overlay.nif_node_index) || wireframe {
            Visibility::Visible
        } else {
            Visibility::Hidden
        }),
{
    let selected = match selected_node {
        Some(n) => n == overlay.nif_node_index,
        None => false,
    };
    WireframeHighlight {
        highlighted: selected,
        visibility: if selected || wireframe {
            Visibility::Visible
        } else {
            Visibility::Hidden
        },
    }
}

/// The comparison of an alpha test.
#[derive(Clone, Copy, Debug, PartialEq, Eq, Structural)]
pub enum AlphaTestFunction {
    Always,
    Less,
    Equal,
    LessEqual,
    Greater,
    NotEqual,
    GreaterEqual,
    Never,
}

/// The shader's number for an alpha comparison.
pub open spec fn alpha_function_code(f: AlphaTestFunction) -> u32 {
    match f {
        AlphaTestFunction::Always => 0,
        AlphaTestFunction::Less => 1,
        AlphaTestFunction::Equal => 2,
        AlphaTestFunction::LessEqual => 3,
        AlphaTestFunction::Greater => 4,
        AlphaTestFunction::NotEqual => 5,
        AlphaTestFunction::GreaterEqual => 6,
        AlphaTestFunction::Never => 7,
    }
}

/// The shader's number for an alpha comparison (`Always` is 0, then
/// `Less` through `Never` are 1 to 7); the uniform adds the reference value / 256.
pub fn alpha_test_code(test_function: AlphaTestFunction) -> (r: u32)
    ensures
        r == alpha_function_code(test_function),
        r < 8,
{
    match test_function {
        AlphaTestFunction::Less => 1,
        AlphaTestFunction::Equal => 2,
        AlphaTestFunction::LessEqual => 3,
        AlphaTestFunction::Greater => 4,
        AlphaTestFunction::NotEqual => 5,
        AlphaTestFunction::GreaterEqual => 6,
        AlphaTestFunction::Never => 7,
        AlphaTestFunction::Always => 0,
    }
}

/// The face winding a NIF stencil property selects for drawing.
#[derive(Clone, Copy, Debug, PartialEq, Eq, Structural)]
pub enum DrawMode {
    Application,
    CounterClockwise,
    Clockwise,
    Both,
}

/// Which faces are culled.
#[derive(Clone, Copy, Debug, PartialEq, Eq, Structural)]
pub enum CullFace {
    Front,
    Back,
}

/// Face culling for a shape: back faces unless a stencil property asks for
/// clockwise drawing (front faces culled) or both sides (nothing culled).
pub fn cull_mode_for(stencil_draw_mode: Option<DrawMode>) -> (r: Option<CullFace>)
    ensures
        r == (match stencil_draw_mode {
            Some(DrawMode::Clockwise) => Some(CullFace::Front),
            Some(DrawMode::Both) => None,
            _ => Some(CullFace::Back),
        }),
{
    match stencil_draw_mode {
        Some(DrawMode::Clockwise) => Some(CullFace::Front),
        Some(DrawMode::Both) => None,
        _ => Some(CullFace::Back),
    }
}

/// How a material is blended.
#[derive(Clone, Copy, Debug, PartialEq, Eq, Structural)]
pub enum BlendMode {
    Opaque,
    Blend,
    /// Alpha-tested; the shader does the comparison.
    Mask,
}

/// Blending of a shape's material: alpha testing wins over alpha blending,
/// and a shape with neither (or no alpha property) is opaque.
pub fn blend_mode_for(alpha_blending: bool, alpha_testing: bool) -> (r: BlendMode)
    ensures
        r == (if alpha_testing {
            BlendMode::Mask
        } else if alpha_blending {
            BlendMode::Blend
        } else {
            BlendMode::Opaque
        }),
{
    let mut mode = BlendMode::Opaque;
    if alpha_blending {
        mode = BlendMode::Blend;
    }
    if alpha_testing {
        mode = BlendMode::Mask;
    }
    mode
}

} // verus!
