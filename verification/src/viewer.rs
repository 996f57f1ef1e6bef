use vstd::prelude::*;
use crate::shader::shader_config::ShaderConf;

verus! {

/// The models that the interactive viewer can show.
#[derive(Clone, Copy, Debug, PartialEq, Eq, Structural)]
pub enum ModelType {
    DIABLO,
    AFRICAN,
}

/// The three files that make up a model.
#[derive(Clone, Copy, Debug, PartialEq, Eq, Structural)]
pub enum Asset {
    /// The diffuse texture.
    Texture,
    /// The tangent-space normal map.
    Normals,
    /// The mesh.
    Mesh,
}

/// The switches of the viewer's menu.
#[derive(Clone, Copy, Debug, PartialEq, Eq, Structural)]
pub enum Switch {
    Diffuse,
    Specular,
    Texture,
    Normals,
    Occlusion,
    /// Show the depth buffer in place of the shaded frame.
    ZBuffer,
}

/// What happens to the viewer.
#[derive(Clone, Copy, Debug, PartialEq, Eq, Structural)]
pub enum Event {
    /// A menu switch was flipped.
    Toggled(Switch),
    /// The camera was moved, turned or zoomed.
    CameraChanged,
    /// A requested file has arrived.
    Arrived(Asset),
    /// A mouse drag began or ended.
    Drag,
    /// Another model was asked for.
    Load(ModelType),
    /// Nothing of interest.
    Noop,
}

/// What the viewer knows besides its camera and its pixels.
pub struct Viewer {
    pub conf: ShaderConf,
    /// The depth buffer is shown in place of the shaded frame.
    pub zbuff: bool,
    pub model_type: ModelType,
    /// The texture of the model has arrived and waits to be used.
    pub texture: bool,
    /// The normal map of the model has arrived and waits to be used.
    pub normals: bool,
    /// The mesh of the model has arrived and waits to be used.
    pub wavefront: bool,
    /// A model was assembled from its three files.
    pub model: bool,
}

/// What the host has to do after an event.
#[derive(Clone, Copy, Debug, PartialEq, Eq, Structural)]
pub struct Reaction {
    /// Request the three files of this model.
    pub fetch: Option<ModelType>,
    /// Assemble the model from the three files that have arrived.
    pub prepare: bool,
    /// Render a frame.
    pub render: bool,
    /// The page has to be laid out again.
    pub redraw: bool,
}

impl ModelType {
    /// The text of `asset_path`.
    pub open spec fn spec_asset_path(self, asset: Asset) -> Seq<char> {
        match (self, asset) {
            (ModelType::AFRICAN, Asset::Texture) => "./african_head/texture.tga"@,
            (ModelType::AFRICAN, Asset::Normals) => "./african_head/normals.tga"@,
            (ModelType::AFRICAN, Asset::Mesh) => "./african_head/model.obj"@,
            (ModelType::DIABLO, Asset::Texture) => "./diablo/texture.tga"@,
            (ModelType::DIABLO, Asset::Normals) => "./diablo/normals.tga"@,
            (ModelType::DIABLO, Asset::Mesh) => "./diablo/model.obj"@,
        }
    }

    /// Where a file of this model is fetched from.
    pub fn asset_path(&self, asset: Asset) -> (path: &'static str)
        ensures
            path@ == self.spec_asset_path(asset),
    {
        match self {
            ModelType::AFRICAN => match asset {
                Asset::Texture => "./african_head/texture.tga",
                Asset::Normals => "./african_head/normals.tga",
                Asset::Mesh => "./african_head/model.obj",
            },
            ModelType::DIABLO => match asset {
                Asset::Texture => "./diablo/texture.tga",
                Asset::Normals => "./diablo/normals.tga",
                Asset::Mesh => "./diablo/model.obj",
            },
        }
    }
}

impl ShaderConf {
    /// The switch of this configuration that `switch` names; the depth-buffer
    /// switch is none of them.
    pub open spec fn flipped(self, switch: Switch) -> ShaderConf {
        match switch {
            Switch::Diffuse => ShaderConf { diff_light: !self.diff_light, ..self },
            Switch::Specular => ShaderConf { spec_light: !self.spec_light, ..self },
            Switch::Texture => ShaderConf { texture: !self.texture, ..self },
            Switch::Normals => ShaderConf { normals: !self.normals, ..self },
            Switch::Occlusion => ShaderConf { occlusion: !self.occlusion, ..self },
            Switch::ZBuffer => self,
        }
    }
}

impl Viewer {
    /// There is something to render: a model, or the three files to assemble
    /// one from.
    pub open spec fn spec_ready(self) -> bool {
        self.model || (self.texture && self.wavefront && self.normals)
    }

    /// The three files of the model have arrived.
    pub open spec fn complete(self) -> bool {
        self.texture && self.wavefront && self.normals
    }

    /// The viewer with one more file arrived.
    pub open spec fn with_asset(self, asset: Asset) -> Viewer {
        match asset {
            Asset::Texture => Viewer { texture: true, ..self },
            Asset::Normals => Viewer { normals: true, ..self },
            Asset::Mesh => Viewer { wavefront: true, ..self },
        }
    }

    /// The viewer after `event`.
    ///
    /// A flipped switch and a changed camera keep what has arrived. A file
    /// that arrives is recorded, and once something can be rendered the
    /// files are used up for the model. A load of another model forgets
    /// every file and the model; a load of the model already chosen is
    /// ignored.
    pub open spec fn after(self, event: Event) -> Viewer {
        match event {
            Event::Toggled(Switch::ZBuffer) => Viewer { zbuff: !self.zbuff, ..self },
            Event::Toggled(switch) => Viewer { conf: self.conf.flipped(switch), ..self },
            Event::Arrived(asset) => {
                let stored = self.with_asset(asset);
                if stored.spec_ready() {
                    Viewer {
                        texture: false,
                        normals: false,
                        wavefront: false,
                        model: true,
                        ..stored
                    }
                } else {
                    stored
                }
            },
            Event::Load(model_type) => if model_type == self.model_type {
                self
            } else {
                Viewer {
                    model_type,
                    texture: false,
                    normals: false,
                    wavefront: false,
                    model: false,
                    ..self
                }
            },
            Event::CameraChanged | Event::Drag | Event::Noop => self,
        }
    }

    /// What the host does after `event`.
    ///
    /// A frame is rendered after every flipped switch, camera change and
    /// arrival for which there is something to render; an arrival that makes
    /// the viewer ready has the model assembled first. Only a load of
    /// another model fetches files. The page is laid out again after
    /// everything but a load and a no-op.
    pub open spec fn reaction(self, event: Event) -> Reaction {
        match event {
            Event::Toggled(_) | Event::CameraChanged => Reaction {
                fetch: None,
                prepare: false,
                render: self.spec_ready(),
                redraw: true,
            },
            Event::Arrived(asset) => Reaction {
                fetch: None,
                prepare: self.with_asset(asset).spec_ready(),
                render: self.with_asset(asset).spec_ready(),
                redraw: true,
            },
            Event::Drag => Reaction { fetch: None, prepare: false, render: false, redraw: true },
            Event::Load(model_type) => Reaction {
                fetch: if model_type == self.model_type {
                    None
                } else {
                    Some(model_type)
                },
                prepare: false,
                render: false,
                redraw: false,
            },
            Event::Noop => Reaction { fetch: None, prepare: false, render: false, redraw: false },
        }
    }

    /// A viewer that waits for the files of the first model.
    pub fn new() -> (v: Viewer)
        ensures
            v == (Viewer {
                conf: ShaderConf {
                    diff_light: true,
                    spec_light: true,
                    texture: true,
                    normals: true,
                    occlusion: false,
                },
                zbuff: false,
                model_type: ModelType::AFRICAN,
                texture: false,
                normals: false,
                wavefront: false,
                model: false,
            }),
    {
        Viewer {
            conf: ShaderConf::new(),
            zbuff: false,
            model_type: ModelType::AFRICAN,
            texture: false,
            normals: false,
            wavefront: false,
            model: false,
        }
    }

    /// Whether there is something to render.
    pub fn ready(&self) -> (r: bool)
        ensures
            r == self.spec_ready(),
    {
        self.model || (self.texture && self.wavefront && self.normals)
    }

    /// Whether the viewer can take `event` in. A file must not arrive at a
    /// viewer that holds a model unless it completes the three files: the
    /// model would be assembled anew from files that are not there.
    pub open spec fn accepts(self, event: Event) -> bool {
        event matches Event::Arrived(asset) ==> (self.model ==> self.with_asset(asset).complete())
    }

    /// Whether the viewer can take `event` in.
    pub fn can_take(&self, event: Event) -> (ok: bool)
        ensures
            ok == self.accepts(event),
    {
        match event {
            Event::Arrived(asset) => {
                let complete = match asset {
                    Asset::Texture => self.wavefront && self.normals,
                    Asset::Normals => self.texture && self.wavefront,
                    Asset::Mesh => self.texture && self.normals,
                };
                !self.model || complete
            },
            _ => true,
        }
    }

    /// Flips `switch`.
    fn toggle(&mut self, switch: Switch)
        ensures
            *final(self) == old(self).after(Event::Toggled(switch)),
    {
        match switch {
            Switch::Diffuse => {
                self.conf.diff_light = !self.conf.diff_light;
            },
            Switch::Specular => {
                self.conf.spec_light = !self.conf.spec_light;
            },
            Switch::Texture => {
                self.conf.texture = !self.conf.texture;
            },
            Switch::Normals => {
                self.conf.normals = !self.conf.normals;
            },
            Switch::Occlusion => {
                self.conf.occlusion = !self.conf.occlusion;
            },
            Switch::ZBuffer => {
                self.zbuff = !self.zbuff;
            },
        }
    }

    /// Records that `asset` has arrived and, once something can be rendered,
    /// uses the files up for the model. Says whether it did.
    fn arrive(&mut self, asset: Asset) -> (ready: bool)
        ensures
            *final(self) == old(self).after(Event::Arrived(asset)),
            ready == old(self).with_asset(asset).spec_ready(),
    {
        match asset {
            Asset::Texture => {
                self.texture = true;
            },
            Asset::Normals => {
                self.normals = true;
            },
            Asset::Mesh => {
                self.wavefront = true;
            },
        }
        let ready = self.ready();
        if ready {
            self.texture = false;
            self.normals = false;
            self.wavefront = false;
            self.model = true;
        }
        ready
    }

    /// Turns to `model_type`; says whether that is another model than the
    /// one chosen before.
    fn load(&mut self, model_type: ModelType) -> (changed: bool)
        ensures
            *final(self) == old(self).after(Event::Load(model_type)),
            changed == (model_type != old(self).model_type),
    {
        let same = match (model_type, self.model_type) {
            (ModelType::AFRICAN, ModelType::AFRICAN) => true,
            (ModelType::DIABLO, ModelType::DIABLO) => true,
            _ => false,
        };
        if !same {
            self.model = false;
            self.texture = false;
            self.normals = false;
            self.wavefront = false;
            self.model_type = model_type;
        }
        !same
    }

    /// Takes `event` in and says what the host has to do.
    pub fn update(&mut self, event: Event) -> (reaction: Reaction)
        requires
            old(self).accepts(event),
        ensures
            *final(self) == old(self).after(event),
            reaction == old(self).reaction(event),
            reaction.prepare ==> old(self).with_asset(event->Arrived_0).complete(),
    {
        match event {
            Event::Toggled(switch) => {
                let render = self.ready();
                self.toggle(switch);
                Reaction { fetch: None, prepare: false, render, redraw: true }
            },
            Event::CameraChanged => Reaction {
                fetch: None,
                prepare: false,
                render: self.ready(),
                redraw: true,
            },
            Event::Arrived(asset) => {
                let ready = self.arrive(asset);
                Reaction { fetch: None, prepare: ready, render: ready, redraw: true }
            },
            Event::Drag => Reaction { fetch: None, prepare: false, render: false, redraw: true },
            Event::Load(model_type) => {
                let changed = self.load(model_type);
                Reaction {
                    fetch: if changed {
                        Some(model_type)
                    } else {
                        None
                    },
                    prepare: false,
                    render: false,
                    redraw: false,
                }
            },
            Event::Noop => Reaction { fetch: None, prepare: false, render: false, redraw: false },
        }
    }
}

} // verus!
