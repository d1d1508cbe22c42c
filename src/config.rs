//! Model configurations and the input size they give the preprocessor.

use vstd::prelude::*;

use crate::text::str_eq;

verus! {

/// A model's main configuration.
#[derive(Debug, Clone)]
pub struct ModelConfig {
    pub architecture: String,
    pub num_classes: u32,
    pub num_features: u32,
    pub pretrained_cfg: PretrainedCfg,
}

/// A model's pretrained configuration.
#[derive(Debug, Clone)]
pub struct PretrainedCfg {
    /// `[channels, height, width]`.
    pub input_size: Vec<u32>,
    pub fixed_input_size: bool,
    pub num_classes: u32,
}

/// One stage of a preprocessing configuration, as far as sizes go.
#[derive(Debug, Clone)]
pub struct StageShape {
    pub stage_type: String,
    pub size: Option<Vec<u32>>,
}

/// Why a configuration gives no input size.
#[derive(Debug, Clone, Copy, PartialEq, Eq, Structural)]
pub enum ConfigError {
    /// The input size does not have three entries.
    InvalidInputSize,
    /// No resize stage with a two-entry size.
    ResizeNotFound,
}

impl ModelConfig {
    /// The `(height, width)` that the model takes, from `[channels, height, width]`.
    pub fn input_dims(&self) -> (r: Result<(u32, u32), ConfigError>)
        ensures
            self.pretrained_cfg.input_size@.len() == 3 ==> r == Ok::<(u32, u32), ConfigError>(
                (self.pretrained_cfg.input_size@[1], self.pretrained_cfg.input_size@[2]),
            ),
            self.pretrained_cfg.input_size@.len() != 3 ==> r == Err::<(u32, u32), ConfigError>(
                ConfigError::InvalidInputSize,
            ),
    {
        let s = &self.pretrained_cfg.input_size;
        if s.len() == 3 {
            Ok((s[1], s[2]))
        } else {
            Err(ConfigError::InvalidInputSize)
        }
    }
}

/// The size of a stage, when it is a resize stage with a two-entry size.
pub open spec fn stage_resize(stage: StageShape) -> Option<(u32, u32)> {
    if stage.stage_type@ == "resize"@ && stage.size is Some && stage.size->0@.len() == 2 {
        Some((stage.size->0@[0], stage.size->0@[1]))
    } else {
        None
    }
}

/// The size of the first stage that has one (see `stage_resize`).
pub open spec fn first_resize(stages: Seq<StageShape>) -> Option<(u32, u32)>
    decreases stages.len(),
{
    if stages.len() == 0 {
        None
    } else if stage_resize(stages[0]) is Some {
        stage_resize(stages[0])
    } else {
        first_resize(stages.skip(1))
    }
}

/// The `(height, width)` of the first resize stage with a two-entry size.
pub fn resize_target(stages: &Vec<StageShape>) -> (r: Result<(u32, u32), ConfigError>)
    ensures
        r == (match first_resize(stages@) {
            Some(hw) => Ok::<(u32, u32), ConfigError>(hw),
            None => Err(ConfigError::ResizeNotFound),
        }),
{
    let mut k: usize = 0;
    assert(stages@.skip(0) == stages@);
    while k < stages.len()
        invariant
            k <= stages@.len(),
            first_resize(stages@) == first_resize(stages@.skip(k as int)),
        decreases stages@.len() - k,
    {
        assert(stages@.skip(k as int)[0] == stages@[k as int]);
        let st = &stages[k];
        if str_eq(st.stage_type.as_str(), "resize") {
            match &st.size {
                Some(sz) => {
                    if sz.len() == 2 {
                        return Ok((sz[0], sz[1]));
                    }
                },
                None => {},
            }
        }
        assert(stages@.skip(k as int).skip(1) == stages@.skip(k + 1));
        k = k + 1;
    }
    Err(ConfigError::ResizeNotFound)
}

} // verus!
