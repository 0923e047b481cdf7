use vstd::prelude::*;

verus! {

/// The sizes of the four layers: input, first hidden, second hidden, output.
#[derive(Clone, Copy, Debug, PartialEq, Eq, Structural)]
pub struct Shape {
    pub input: usize,
    pub hidden1: usize,
    pub hidden2: usize,
    pub output: usize,
}

/// The three layers that hold neurons with weights.
#[derive(Clone, Copy, Debug, PartialEq, Eq, Structural)]
pub enum Layer {
    Hidden1,
    Hidden2,
    Output,
}

/// Failures reported by the network.
#[derive(Clone, Debug, PartialEq, Eq)]
pub enum NetworkError {
    /// An image whose length is not the input layer's size.
    InvalidInputShape { expected: usize, found: usize },
    /// A label that names no output neuron.
    InvalidLabel { label: u8, classes: usize },
    /// A stored layer whose neurons do not fit the network's shape.
    LayoutMismatch { layer: Layer },
    /// The state file could not be read or written.
    Io(String),
    /// The state document could not be parsed.
    Deserialization(String),
}

impl Shape {
    /// Number of neurons in a layer.
    pub open spec fn size_of(self, layer: Layer) -> nat {
        match layer {
            Layer::Hidden1 => self.hidden1 as nat,
            Layer::Hidden2 => self.hidden2 as nat,
            Layer::Output => self.output as nat,
        }
    }

    /// Number of weights each neuron of a layer holds: the size of the layer before it.
    pub open spec fn fan_in_of(self, layer: Layer) -> nat {
        match layer {
            Layer::Hidden1 => self.input as nat,
            Layer::Hidden2 => self.hidden1 as nat,
            Layer::Output => self.hidden2 as nat,
        }
    }

    pub fn size(&self, layer: Layer) -> (r: usize)
        ensures
            r == self.size_of(layer),
    {
        match layer {
            Layer::Hidden1 => self.hidden1,
            Layer::Hidden2 => self.hidden2,
            Layer::Output => self.output,
        }
    }

    pub fn fan_in(&self, layer: Layer) -> (r: usize)
        ensures
            r == self.fan_in_of(layer),
    {
        match layer {
            Layer::Hidden1 => self.input,
            Layer::Hidden2 => self.hidden1,
            Layer::Output => self.hidden2,
        }
    }

    /// Accepts an image exactly when its length is the input layer's size.
    pub fn check_image(&self, len: usize) -> (r: Result<(), NetworkError>)
        ensures
            len == self.input ==> r is Ok,
            len != self.input ==> r == Err::<(), NetworkError>(
                NetworkError::InvalidInputShape { expected: self.input, found: len },
            ),
    {
        if len == self.input {
            Ok(())
        } else {
            Err(NetworkError::InvalidInputShape { expected: self.input, found: len })
        }
    }

    /// Accepts a label exactly when it names an output neuron, and gives its index.
    pub fn check_label(&self, label: u8) -> (r: Result<usize, NetworkError>)
        ensures
            (label as usize) < self.output ==> r == Ok::<usize, NetworkError>(label as usize),
            (label as usize) >= self.output ==> r == Err::<usize, NetworkError>(
                NetworkError::InvalidLabel { label, classes: self.output },
            ),
    {
        if (label as usize) < self.output {
            Ok(label as usize)
        } else {
            Err(NetworkError::InvalidLabel { label, classes: self.output })
        }
    }

    /// The target of one training step: set at the label's index and clear elsewhere.
    pub fn desired_output(&self, label: u8) -> (r: Result<Vec<bool>, NetworkError>)
        ensures
            (label as usize) < self.output ==> (r matches Ok(d) && d@.len() == self.output && (
            forall|i: int| 0 <= i < self.output ==> d@[i] == (i == label as int))),
            (label as usize) >= self.output ==> r == Err::<Vec<bool>, NetworkError>(
                NetworkError::InvalidLabel { label, classes: self.output },
            ),
    {
        let index = match self.check_label(label) {
            Ok(i) => i,
            Err(e) => {
                return Err(e);
            },
        };
        let mut desired: Vec<bool> = Vec::new();
        let mut i: usize = 0;
        while i < self.output
            invariant
                i <= self.output,
                index == label as usize,
                desired@.len() == i,
                forall|k: int| 0 <= k < i ==> desired@[k] == (k == index as int),
            decreases self.output - i,
        {
            desired.push(i == index);
            i = i + 1;
        }
        Ok(desired)
    }

    /// Accepts a stored layer exactly when it has one entry per neuron and each
    /// neuron holds one weight per neuron of the layer before it; `fan_ins[i]`
    /// is the number of weights stored for neuron `i`.
    pub fn check_layout(&self, layer: Layer, fan_ins: &Vec<usize>) -> (r: Result<(), NetworkError>)
        ensures
            r is Ok <==> fan_ins@.len() == self.size_of(layer) && (forall|i: int|
                0 <= i < fan_ins@.len() ==> fan_ins@[i] == self.fan_in_of(layer)),
            r is Err ==> r == Err::<(), NetworkError>(NetworkError::LayoutMismatch { layer }),
    {
        if fan_ins.len() != self.size(layer) {
            return Err(NetworkError::LayoutMismatch { layer });
        }
        let expected = self.fan_in(layer);
        let mut i: usize = 0;
        while i < fan_ins.len()
            invariant
                i <= fan_ins@.len(),
                expected == self.fan_in_of(layer),
                forall|k: int| 0 <= k < i ==> fan_ins@[k] == expected,
            decreases fan_ins@.len() - i,
        {
            if fan_ins[i] != expected {
                return Err(NetworkError::LayoutMismatch { layer });
            }
            i = i + 1;
        }
        Ok(())
    }
}

} // verus!
