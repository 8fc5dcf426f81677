//! Operation descriptions and execution backends.
//!
//! An operation is a named, data-only description of work on pixels; a
//! backend is a capability that accepts one and either produces a sequence
//! of pixel values or fails. The core wraps a backend, an operation and a
//! rectangle as an ordinary pixel source with a bounds-checked, row-major
//! lookup into the backend's output; it never interprets the operation
//! itself. Scalar parameters of operations are carried as the bit patterns
//! of IEEE-754 doubles, since the core never reads them.

use vstd::prelude::*;

verus! {

use core::marker::PhantomData;
use crate::pixel::Pixel;
use crate::processor::ImageProcessor;

/// Errors an execution backend can report.
#[derive(Debug, Clone)]
pub enum BackendError {
    /// The backend cannot run this operation at all.
    NotSupported,
    /// The backend tried and failed, with a message.
    ExecutionFailed(String),
}

/// A pointwise operation, applied to each pixel independently. Amounts are
/// the bit patterns of IEEE-754 doubles.
#[derive(Debug, Clone, Copy)]
pub enum PointwiseOp {
    Identity,
    Negate,
    Brighten(u64),
    Contrast(u64),
}

/// A named, data-only description of an operation on pixels.
#[derive(Debug, Clone)]
pub enum Operation<P> {
    /// A pointwise function from the closed enumeration.
    Pointwise { function: PointwiseOp },
    /// A convolution with a rectangular kernel whose weights are the bit
    /// patterns of IEEE-754 doubles.
    Convolve { kernel: Vec<Vec<u64>> },
    /// A custom operation carrying raw pixel data and a name.
    Custom { name: String, data: Vec<P> },
}

/// An execution strategy for operations over one pixel type. Each
/// implementation fixes a relation `execute_rel` saying which outcomes a
/// run may produce, and `execute` answers within it.
pub trait Backend<P: Pixel>: Send + Sync + Sized {
    /// The outcomes running `op` on this backend may produce.
    spec fn execute_rel(&self, op: Operation<P>, r: Result<Vec<P>, BackendError>) -> bool;

    /// Runs `op`, producing the pixel values it describes or an error.
    fn execute(&self, op: &Operation<P>) -> (r: Result<Vec<P>, BackendError>)
        ensures
            self.execute_rel(*op, r),
    ;
}

/// The backend that runs operations on the processor. Pointwise and
/// convolution runs are placeholders producing no pixels; a custom
/// operation yields its own data.
pub struct CpuBackend;

impl<P: Pixel> Backend<P> for CpuBackend {
    open spec fn execute_rel(&self, op: Operation<P>, r: Result<Vec<P>, BackendError>) -> bool {
        match op {
            Operation::Custom { data, .. } => match r {
                Ok(v) => v@ == data@,
                Err(_) => false,
            },
            _ => match r {
                Ok(v) => v@ == Seq::<P>::empty(),
                Err(_) => false,
            },
        }
    }

    fn execute(&self, op: &Operation<P>) -> (r: Result<Vec<P>, BackendError>) {
        match op {
            Operation::Pointwise { .. } => Ok(Vec::new()),
            Operation::Convolve { .. } => Ok(Vec::new()),
            Operation::Custom { data, .. } => {
                let n = data.len();
                let mut out: Vec<P> = Vec::new();
                let mut i: usize = 0;
                while i < n
                    invariant
                        i <= n,
                        n == data@.len(),
                        out@ == data@.take(i as int),
                    decreases n - i,
                {
                    out.push(data[i]);
                    proof {
                        assert(out@ =~= data@.take(i as int + 1));
                    }
                    i += 1;
                }
                proof {
                    assert(data@.take(n as int) =~= data@);
                }
                Ok(out)
            },
        }
    }
}

/// A placeholder backend for a graphics device; it supports nothing yet.
pub struct GpuBackend {
    pub _device_id: usize,
}

impl GpuBackend {
    /// A backend for the device with the given identifier.
    pub fn new(device_id: usize) -> (r: GpuBackend)
        ensures
            r._device_id == device_id,
    {
        GpuBackend { _device_id: device_id }
    }
}

impl<P: Pixel> Backend<P> for GpuBackend {
    open spec fn execute_rel(&self, op: Operation<P>, r: Result<Vec<P>, BackendError>) -> bool {
        r == Err::<Vec<P>, BackendError>(BackendError::NotSupported)
    }

    fn execute(&self, op: &Operation<P>) -> (r: Result<Vec<P>, BackendError>) {
        Err(BackendError::NotSupported)
    }
}

/// A pixel source that serves queries from a backend's output for one
/// operation: a bounds-checked lookup into that output by row-major index.
pub struct BackendProcessor<P, B> {
    pub operation: Operation<P>,
    pub backend: B,
    pub width: usize,
    pub height: usize,
}

impl<P: Pixel, B: Backend<P>> BackendProcessor<P, B> {
    /// A source of the given rectangle over one operation and backend.
    pub fn new(operation: Operation<P>, backend: B, width: usize, height: usize) -> (r:
        BackendProcessor<P, B>)
        ensures
            r.operation == operation,
            r.backend == backend,
            r.width == width,
            r.height == height,
    {
        BackendProcessor { operation, backend, width, height }
    }
}

impl<P: Pixel, B: Backend<P>> ImageProcessor for BackendProcessor<P, B> {
    type Pixel = P;

    type Error = BackendError;

    open spec fn wf(&self) -> bool {
        self.width * self.height <= usize::MAX
    }

    open spec fn spec_width(&self) -> int {
        self.width as int
    }

    open spec fn spec_height(&self) -> int {
        self.height as int
    }

    open spec fn lookup_rel(&self, x: int, y: int, r: Result<Option<P>, BackendError>) -> bool {
        if 0 <= x < self.width && 0 <= y < self.height {
            exists|res: Result<Vec<P>, BackendError>|
                #[trigger] self.backend.execute_rel(self.operation, res) && match res {
                    Ok(pixels) => {
                        let idx = y * self.width + x;
                        if idx < pixels@.len() {
                            r == Ok::<Option<P>, BackendError>(Some(pixels@[idx]))
                        } else {
                            r == Ok::<Option<P>, BackendError>(None)
                        }
                    },
                    Err(e) => r == Err::<Option<P>, BackendError>(e),
                }
        } else {
            r == Ok::<Option<P>, BackendError>(None)
        }
    }

    fn dimensions(&self) -> (r: (usize, usize)) {
        (self.width, self.height)
    }

    fn process_pixel(&self, x: usize, y: usize) -> (r: Result<Option<P>, BackendError>) {
        if x >= self.width || y >= self.height {
            return Ok(None);
        }
        proof {
            assert(y * self.width + x < self.width * self.height) by (nonlinear_arith)
                requires
                    x < self.width,
                    y < self.height,
            ;
        }
        let res = self.backend.execute(&self.operation);
        let ghost gres = res;
        match res {
            Ok(pixels) => {
                let idx = y * self.width + x;
                if idx < pixels.len() {
                    Ok(Some(pixels[idx]))
                } else {
                    Ok(None)
                }
            },
            Err(e) => Err(e),
        }
    }
}

/// A builder for operation descriptions.
pub struct OperationBuilder<P> {
    pub _phantom: PhantomData<P>,
}

impl<P: Pixel> OperationBuilder<P> {
    /// A fresh builder.
    pub fn new() -> (r: OperationBuilder<P>) {
        OperationBuilder { _phantom: PhantomData }
    }

    /// The description of a pointwise operation.
    pub fn pointwise(op: PointwiseOp) -> (r: Operation<P>)
        ensures
            (r == Operation::<P>::Pointwise { function: op }),
    {
        Operation::Pointwise { function: op }
    }

    /// The description of a convolution with the given kernel.
    pub fn convolve(kernel: Vec<Vec<u64>>) -> (r: Operation<P>)
        ensures
            (r == Operation::<P>::Convolve { kernel }),
    {
        Operation::Convolve { kernel }
    }

    /// The description of a custom operation with the given name and data.
    pub fn custom(name: String, data: Vec<P>) -> (r: Operation<P>)
        ensures
            (r == Operation::<P>::Custom { name, data }),
    {
        Operation::Custom { name, data }
    }
}

impl<P: Pixel> Default for OperationBuilder<P> {
    /// The same value `new` builds.
    fn default() -> (r: OperationBuilder<P>)
        ensures
            (r == OperationBuilder::<P> { _phantom: PhantomData }),
    {
        OperationBuilder::new()
    }
}

} // verus!
