use crate::text::decimal;
use crate::text::decimal_string;
use vstd::prelude::*;
use vstd::string::StringExecFns;

verus! {

/// What a mesh draw needs to know of a mesh: its label and how many
/// vertices and indices its buffers hold.
#[derive(Debug)]
pub struct MeshInfo {
    pub label: String,
    pub vertex_count: u32,
    pub index_count: u32,
}

/// Errors of the mesh pass.
#[derive(Debug)]
pub enum MeshPassError {
    MissingMaterial { pipeline: String },
    TargetSampleCountMismatch { pipeline: String, pipeline_samples: u32, target_samples: u32 },
    SurfaceSampleCountMismatch { pipeline: String, pipeline_samples: u32 },
    MissingDepthTarget { pipeline: String },
    UnexpectedDepthTarget { pipeline: String },
    DepthSampleCountMismatch { color_samples: u32, depth_samples: u32 },
    AliasingTargets,
    VertexRangeOutOfBounds { mesh: String, start: u32, end: u32, vertex_count: u32 },
    IndexRangeOutOfBounds { mesh: String, start: u32, end: u32, index_count: u32 },
    MissingIndexBuffer { mesh: String },
    InvalidInstanceRange { start: u32, end: u32 },
}

/// One mesh draw: the mesh, the pipeline cache `P` it is drawn with, an
/// optional material `M`, and the vertex, index and instance ranges.
pub struct MeshDraw<'a, P, M> {
    pub mesh: &'a MeshInfo,
    pub pipeline: &'a mut P,
    pub material: Option<&'a M>,
    pub vertex_range: Option<std::ops::Range<u32>>,
    pub index_range: Option<std::ops::Range<u32>>,
    pub base_vertex: i32,
    pub instances: std::ops::Range<u32>,
}

impl<'a, P, M> MeshDraw<'a, P, M> {
    /// A draw of the whole mesh, one instance, no material.
    pub fn new(mesh: &'a MeshInfo, pipeline: &'a mut P) -> (r: Self)
        ensures
            r.mesh == mesh,
            *r.pipeline == *old(pipeline),
            *final(r.pipeline) == *final(pipeline),
            r.material is None,
            r.vertex_range is None,
            r.index_range is None,
            r.base_vertex == 0,
            r.instances.start == 0,
            r.instances.end == 1,
    {
        MeshDraw {
            mesh,
            pipeline,
            material: None,
            vertex_range: None,
            index_range: None,
            base_vertex: 0,
            instances: 0..1,
        }
    }

    pub fn material(self, material: &'a M) -> (r: Self)
        ensures
            r.mesh == self.mesh,
            *r.pipeline == *old(self.pipeline),
            *final(r.pipeline) == *final(self.pipeline),
            r.material == Some(material),
            r.vertex_range == self.vertex_range,
            r.index_range == self.index_range,
            r.base_vertex == self.base_vertex,
            r.instances == self.instances,
    {
        MeshDraw { material: Some(material), ..self }
    }

    pub fn vertices(self, range: std::ops::Range<u32>) -> (r: Self)
        ensures
            r.mesh == self.mesh,
            *r.pipeline == *old(self.pipeline),
            *final(r.pipeline) == *final(self.pipeline),
            r.material == self.material,
            r.vertex_range == Some(range),
            r.index_range == self.index_range,
            r.base_vertex == self.base_vertex,
            r.instances == self.instances,
    {
        MeshDraw { vertex_range: Some(range), ..self }
    }

    pub fn indices(self, range: std::ops::Range<u32>) -> (r: Self)
        ensures
            r.mesh == self.mesh,
            *r.pipeline == *old(self.pipeline),
            *final(r.pipeline) == *final(self.pipeline),
            r.material == self.material,
            r.vertex_range == self.vertex_range,
            r.index_range == Some(range),
            r.base_vertex == self.base_vertex,
            r.instances == self.instances,
    {
        MeshDraw { index_range: Some(range), ..self }
    }

    pub fn base_vertex(self, base_vertex: i32) -> (r: Self)
        ensures
            r.mesh == self.mesh,
            *r.pipeline == *old(self.pipeline),
            *final(r.pipeline) == *final(self.pipeline),
            r.material == self.material,
            r.vertex_range == self.vertex_range,
            r.index_range == self.index_range,
            r.base_vertex == base_vertex,
            r.instances == self.instances,
    {
        MeshDraw { base_vertex, ..self }
    }

    pub fn instances(self, range: std::ops::Range<u32>) -> (r: Self)
        ensures
            r.mesh == self.mesh,
            *r.pipeline == *old(self.pipeline),
            *final(r.pipeline) == *final(self.pipeline),
            r.material == self.material,
            r.vertex_range == self.vertex_range,
            r.index_range == self.index_range,
            r.base_vertex == self.base_vertex,
            r.instances == range,
    {
        MeshDraw { instances: range, ..self }
    }
}

/// An instance range is valid when it does not run backwards.
pub fn validate_instances(range: std::ops::Range<u32>) -> (r: Result<
    std::ops::Range<u32>,
    MeshPassError,
>)
    ensures
        range.start <= range.end ==> (r matches Ok(x) && x == range),
        range.start > range.end ==> (r matches Err(
            MeshPassError::InvalidInstanceRange { start, end },
        ) && start == range.start && end == range.end),
{
    if range.start > range.end {
        return Err(MeshPassError::InvalidInstanceRange { start: range.start, end: range.end });
    }
    Ok(range)
}

/// A vertex range is valid when it runs forwards inside the mesh's vertices.
pub fn validate_vertex_range(mesh: &MeshInfo, range: std::ops::Range<u32>) -> (r: Result<
    std::ops::Range<u32>,
    MeshPassError,
>)
    ensures
        range.start <= range.end <= mesh.vertex_count ==> (r matches Ok(x) && x == range),
        !(range.start <= range.end <= mesh.vertex_count) ==> (r matches Err(
            MeshPassError::VertexRangeOutOfBounds { mesh: label, start, end, vertex_count },
        ) && label@ == mesh.label@ && start == range.start && end == range.end && vertex_count
            == mesh.vertex_count),
{
    if range.start > range.end || range.end > mesh.vertex_count {
        return Err(
            MeshPassError::VertexRangeOutOfBounds {
                mesh: mesh.label.clone(),
                start: range.start,
                end: range.end,
                vertex_count: mesh.vertex_count,
            },
        );
    }
    Ok(range)
}

/// An index range is valid when it runs forwards inside the mesh's indices.
pub fn validate_index_range(mesh: &MeshInfo, range: std::ops::Range<u32>) -> (r: Result<
    std::ops::Range<u32>,
    MeshPassError,
>)
    ensures
        range.start <= range.end <= mesh.index_count ==> (r matches Ok(x) && x == range),
        !(range.start <= range.end <= mesh.index_count) ==> (r matches Err(
            MeshPassError::IndexRangeOutOfBounds { mesh: label, start, end, index_count },
        ) && label@ == mesh.label@ && start == range.start && end == range.end && index_count
            == mesh.index_count),
{
    if range.start > range.end || range.end > mesh.index_count {
        return Err(
            MeshPassError::IndexRangeOutOfBounds {
                mesh: mesh.label.clone(),
                start: range.start,
                end: range.end,
                index_count: mesh.index_count,
            },
        );
    }
    Ok(range)
}

/// `n` in decimal.
pub open spec fn dec(n: u32) -> Seq<char> {
    decimal(n as nat)
}

/// The message of a mesh pass error.
pub open spec fn mesh_pass_message(e: MeshPassError) -> Seq<char> {
    match e {
        MeshPassError::MissingMaterial { pipeline } => "Mesh pipeline \""@ + pipeline@
            + "\" requires a material instance"@,
        MeshPassError::TargetSampleCountMismatch { pipeline, pipeline_samples, target_samples } =>
            "Mesh pipeline \""@ + pipeline@ + "\" uses sample_count="@ + dec(pipeline_samples)
            + ", but the color target uses "@ + dec(target_samples),
        MeshPassError::SurfaceSampleCountMismatch { pipeline, pipeline_samples } => "Mesh pipeline \""@
            + pipeline@ + "\" uses sample_count="@ + dec(pipeline_samples)
            + ", but surface rendering only supports 1x"@,
        MeshPassError::MissingDepthTarget { pipeline } => "Mesh pipeline \""@ + pipeline@
            + "\" requires a depth target"@,
        MeshPassError::UnexpectedDepthTarget { pipeline } => "Mesh pipeline \""@ + pipeline@
            + "\" does not declare depth-stencil state"@,
        MeshPassError::DepthSampleCountMismatch { color_samples, depth_samples } =>
            "Color/depth sample counts must match, got color="@ + dec(color_samples) + " depth="@
            + dec(depth_samples),
        MeshPassError::AliasingTargets => "MeshPass requires distinct color and depth targets"@,
        MeshPassError::VertexRangeOutOfBounds { mesh, start, end, vertex_count } => "Vertex range "@
            + dec(start) + ".."@ + dec(end) + " is out of bounds for mesh \""@ + mesh@ + "\" with "@
            + dec(vertex_count) + " vertices"@,
        MeshPassError::IndexRangeOutOfBounds { mesh, start, end, index_count } => "Index range "@
            + dec(start) + ".."@ + dec(end) + " is out of bounds for mesh \""@ + mesh@ + "\" with "@
            + dec(index_count) + " indices"@,
        MeshPassError::MissingIndexBuffer { mesh } => "Mesh \""@ + mesh@ + "\" has no index buffer"@,
        MeshPassError::InvalidInstanceRange { start, end } => "Invalid instance range "@ + dec(start)
            + ".."@ + dec(end),
    }
}

fn append_u32(s: &mut String, n: u32)
    ensures
        final(s)@ == old(s)@ + dec(n),
{
    let d = decimal_string(n as u64);
    s.append(d.as_str());
}

impl MeshPassError {
    /// The error's message, as `Display` shows it.
    pub fn message(&self) -> (r: String)
        ensures
            r@ == mesh_pass_message(*self),
    {
        match self {
            MeshPassError::MissingMaterial { pipeline } => {
                let mut s = String::from_str("Mesh pipeline \"");
                s.append(pipeline.as_str());
                s.append("\" requires a material instance");
                s
            },
            MeshPassError::TargetSampleCountMismatch { pipeline, pipeline_samples, target_samples } => {
                let mut s = String::from_str("Mesh pipeline \"");
                s.append(pipeline.as_str());
                s.append("\" uses sample_count=");
                append_u32(&mut s, *pipeline_samples);
                s.append(", but the color target uses ");
                append_u32(&mut s, *target_samples);
                s
            },
            MeshPassError::SurfaceSampleCountMismatch { pipeline, pipeline_samples } => {
                let mut s = String::from_str("Mesh pipeline \"");
                s.append(pipeline.as_str());
                s.append("\" uses sample_count=");
                append_u32(&mut s, *pipeline_samples);
                s.append(", but surface rendering only supports 1x");
                s
            },
            MeshPassError::MissingDepthTarget { pipeline } => {
                let mut s = String::from_str("Mesh pipeline \"");
                s.append(pipeline.as_str());
                s.append("\" requires a depth target");
                s
            },
            MeshPassError::UnexpectedDepthTarget { pipeline } => {
                let mut s = String::from_str("Mesh pipeline \"");
                s.append(pipeline.as_str());
                s.append("\" does not declare depth-stencil state");
                s
            },
            MeshPassError::DepthSampleCountMismatch { color_samples, depth_samples } => {
                let mut s = String::from_str("Color/depth sample counts must match, got color=");
                append_u32(&mut s, *color_samples);
                s.append(" depth=");
                append_u32(&mut s, *depth_samples);
                s
            },
            MeshPassError::AliasingTargets => String::from_str(
                "MeshPass requires distinct color and depth targets",
            ),
            MeshPassError::VertexRangeOutOfBounds { mesh, start, end, vertex_count } => {
                let mut s = String::from_str("Vertex range ");
                append_u32(&mut s, *start);
                s.append("..");
                append_u32(&mut s, *end);
                s.append(" is out of bounds for mesh \"");
                s.append(mesh.as_str());
                s.append("\" with ");
                append_u32(&mut s, *vertex_count);
                s.append(" vertices");
                s
            },
            MeshPassError::IndexRangeOutOfBounds { mesh, start, end, index_count } => {
                let mut s = String::from_str("Index range ");
                append_u32(&mut s, *start);
                s.append("..");
                append_u32(&mut s, *end);
                s.append(" is out of bounds for mesh \"");
                s.append(mesh.as_str());
                s.append("\" with ");
                append_u32(&mut s, *index_count);
                s.append(" indices");
                s
            },
            MeshPassError::MissingIndexBuffer { mesh } => {
                let mut s = String::from_str("Mesh \"");
                s.append(mesh.as_str());
                s.append("\" has no index buffer");
                s
            },
            MeshPassError::InvalidInstanceRange { start, end } => {
                let mut s = String::from_str("Invalid instance range ");
                append_u32(&mut s, *start);
                s.append("..");
                append_u32(&mut s, *end);
                s
            },
        }
    }
}

} // verus!
