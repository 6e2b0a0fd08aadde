//! Builder for a model: collect layers and options, fall back to the
//! engine's defaults for whatever was not set, and produce the model.

use vstd::prelude::*;

use crate::checkpoint::Checkpoint;
use crate::layers::Layer;
use crate::model::Model;
use crate::optimizer::Optimizer;

verus! {

/// Bit pattern of 0.001, the default L2 coefficient.
pub const DEFAULT_LAMBDA_BITS: u64 = 0x3f50_624d_d2f1_a9fc;

/// Bit pattern of 0.01, the default learning step of the default optimizer.
pub const DEFAULT_STEP_BITS: u64 = 0x3f84_7ae1_47ae_147b;

pub const DEFAULT_PRINT_FREQUENCY: usize = 100;

pub struct ModelBuilder {
    pub layers: Vec<Layer>,
    pub user_defined_lambda: Option<u64>,
    pub user_defined_optimizer: Option<Optimizer>,
    pub checkpoint: Option<Checkpoint>,
    pub user_defined_print_frequency: Option<usize>,
    pub user_defined_debug: Option<bool>,
    pub user_defined_silent_mode: Option<bool>,
}

impl ModelBuilder {
    pub fn new() -> (r: ModelBuilder)
        ensures
            r.layers.len() == 0,
            r.user_defined_lambda is None,
            r.user_defined_optimizer is None,
            r.checkpoint is None,
            r.user_defined_print_frequency is None,
            r.user_defined_debug is None,
            r.user_defined_silent_mode is None,
    {
        ModelBuilder {
            layers: Vec::new(),
            user_defined_debug: None,
            user_defined_silent_mode: None,
            user_defined_print_frequency: None,
            user_defined_optimizer: None,
            user_defined_lambda: None,
            checkpoint: None,
        }
    }

    pub fn add_layer(self, layer: Layer) -> (r: ModelBuilder)
        ensures
            r.layers@ == self.layers@.push(layer),
            r.user_defined_lambda == self.user_defined_lambda,
            r.user_defined_optimizer == self.user_defined_optimizer,
            r.checkpoint == self.checkpoint,
            r.user_defined_print_frequency == self.user_defined_print_frequency,
            r.user_defined_debug == self.user_defined_debug,
            r.user_defined_silent_mode == self.user_defined_silent_mode,
    {
        let mut b = self;
        b.layers.push(layer);
        b
    }

    pub fn optimizer(self, optimizer: Optimizer) -> (r: ModelBuilder)
        ensures
            r.user_defined_optimizer == Some(optimizer),
            r.layers == self.layers,
            r.user_defined_lambda == self.user_defined_lambda,
            r.checkpoint == self.checkpoint,
            r.user_defined_print_frequency == self.user_defined_print_frequency,
            r.user_defined_debug == self.user_defined_debug,
            r.user_defined_silent_mode == self.user_defined_silent_mode,
    {
        let mut b = self;
        b.user_defined_optimizer = Some(optimizer);
        b
    }

    pub fn l2_reg(self, lambda: u64) -> (r: ModelBuilder)
        ensures
            r.user_defined_lambda == Some(lambda),
            r.layers == self.layers,
            r.user_defined_optimizer == self.user_defined_optimizer,
            r.checkpoint == self.checkpoint,
            r.user_defined_print_frequency == self.user_defined_print_frequency,
            r.user_defined_debug == self.user_defined_debug,
            r.user_defined_silent_mode == self.user_defined_silent_mode,
    {
        let mut b = self;
        b.user_defined_lambda = Some(lambda);
        b
    }

    pub fn checkpoint(self, checkpoint: Checkpoint) -> (r: ModelBuilder)
        ensures
            r.checkpoint is Some,
            r.layers == self.layers,
            r.user_defined_lambda == self.user_defined_lambda,
            r.user_defined_optimizer == self.user_defined_optimizer,
            r.user_defined_print_frequency == self.user_defined_print_frequency,
            r.user_defined_debug == self.user_defined_debug,
            r.user_defined_silent_mode == self.user_defined_silent_mode,
    {
        let mut b = self;
        b.checkpoint = Some(checkpoint);
        b
    }

    pub fn verbose(self, print_frequency: usize, silent_mode: bool) -> (r: ModelBuilder)
        ensures
            r.user_defined_print_frequency == Some(print_frequency),
            r.user_defined_silent_mode == Some(silent_mode),
            r.layers == self.layers,
            r.user_defined_lambda == self.user_defined_lambda,
            r.user_defined_optimizer == self.user_defined_optimizer,
            r.checkpoint == self.checkpoint,
            r.user_defined_debug == self.user_defined_debug,
    {
        let mut b = self;
        b.user_defined_print_frequency = Some(print_frequency);
        b.user_defined_silent_mode = Some(silent_mode);
        b
    }

    pub fn debug(self, debug: bool) -> (r: ModelBuilder)
        ensures
            r.user_defined_debug == Some(debug),
            r.layers == self.layers,
            r.user_defined_lambda == self.user_defined_lambda,
            r.user_defined_optimizer == self.user_defined_optimizer,
            r.checkpoint == self.checkpoint,
            r.user_defined_print_frequency == self.user_defined_print_frequency,
            r.user_defined_silent_mode == self.user_defined_silent_mode,
    {
        let mut b = self;
        b.user_defined_debug = Some(debug);
        b
    }

    /// Produce the model: the collected layers, the chosen or default
    /// optimizer, and the chosen or default L2 coefficient.  At least one
    /// layer must have been added.
    pub fn build(self) -> (r: Model)
        requires
            self.layers.len() > 0,
        ensures
            r.layers == self.layers,
            r.optimizer == match self.user_defined_optimizer {
                Some(opt) => opt,
                None => Optimizer::SGD { learning_step: DEFAULT_STEP_BITS },
            },
            r.lambda == match self.user_defined_lambda {
                Some(lambda) => lambda,
                None => DEFAULT_LAMBDA_BITS,
            },
    {
        let optimizer: Optimizer = match &self.user_defined_optimizer {
            Some(optimizer) => *optimizer,
            None => Optimizer::SGD { learning_step: DEFAULT_STEP_BITS },
        };
        let lambda: u64 = match self.user_defined_lambda {
            Some(lambda) => lambda,
            None => DEFAULT_LAMBDA_BITS,
        };
        Model::init(self.layers, optimizer, lambda)
    }
}

} // verus!
