use vstd::prelude::*;

use crate::error::DiffusionError;

verus! {

/// Number of entries in the resolution table.
pub const NUM_RESOLUTIONS: usize = 40;

/// Side length, in pixels, covered by one latent cell.
pub const LATENT_FACTOR: usize = 8;

/// Number of channels of a latent tensor.
pub const LATENT_CHANNELS: usize = 4;

/// A supported output size, in pixels.
#[derive(Debug, Clone, Copy, PartialEq, Eq, Structural)]
pub struct ResolutionBucket {
    pub width: u32,
    pub height: u32,
}

/// The supported (width, height) pairs, ordered from the tallest to the widest aspect.
pub open spec fn resolution_table() -> Seq<(u32, u32)> {
    seq![
        (512, 2048), (512, 1984), (512, 1920), (512, 1856), (576, 1792),
        (576, 1728), (576, 1664), (640, 1600), (640, 1536), (704, 1472),
        (704, 1408), (704, 1344), (768, 1344), (768, 1280), (832, 1216),
        (832, 1152), (896, 1152), (896, 1088), (960, 1088), (960, 1024),
        (1024, 1024), (1024, 960), (1088, 960), (1088, 896), (1152, 896),
        (1152, 832), (1216, 832), (1280, 768), (1344, 768), (1408, 704),
        (1472, 704), (1536, 640), (1600, 640), (1664, 576), (1728, 576),
        (1792, 576), (1856, 512), (1920, 512), (1984, 512), (2048, 512),
    ]
}

impl ResolutionBucket {
    /// The bucket is one of the table's entries.
    pub open spec fn in_table(self) -> bool {
        exists|i: int| 0 <= i < NUM_RESOLUTIONS && #[trigger] resolution_table()[i] == (self.width, self.height)
    }

    /// Both sides are positive multiples of the latent factor.
    pub open spec fn wf(self) -> bool {
        &&& self.width > 0
        &&& self.height > 0
        &&& self.width as int % LATENT_FACTOR as int == 0
        &&& self.height as int % LATENT_FACTOR as int == 0
    }

    /// Shape of the latent that generates an image of this size, for a batch of `batch`.
    pub open spec fn latent_shape_spec(self, batch: nat) -> Seq<usize> {
        seq![
            batch as usize,
            LATENT_CHANNELS,
            (self.height as int / LATENT_FACTOR as int) as usize,
            (self.width as int / LATENT_FACTOR as int) as usize,
        ]
    }

    /// The latent tensor shape (batch, channels, height / 8, width / 8) for this bucket.
    pub fn latent_shape(&self, batch: usize) -> (r: Vec<usize>)
        ensures
            r@ == self.latent_shape_spec(batch as nat),
    {
        let h = (self.height / (LATENT_FACTOR as u32)) as usize;
        let w = (self.width / (LATENT_FACTOR as u32)) as usize;
        vec![batch, LATENT_CHANNELS, h, w]
    }
}

/// Every table entry is well formed.
pub proof fn lemma_table_entries_wf(i: int)
    requires
        0 <= i < NUM_RESOLUTIONS,
    ensures
        ({
            let (w, h) = resolution_table()[i];
            (ResolutionBucket { width: w, height: h }).wf()
        }),
{
    reveal_with_fuel(resolution_table, 1);
    assert(resolution_table().len() == NUM_RESOLUTIONS);
}

/// The whole resolution table, in order.
pub fn resolutions() -> (r: Vec<ResolutionBucket>)
    ensures
        r@.len() == NUM_RESOLUTIONS,
        forall|i: int| 0 <= i < NUM_RESOLUTIONS ==> (#[trigger] r@[i].width, r@[i].height) == resolution_table()[i],
{
    let pairs: Vec<(u32, u32)> = vec![
        (512, 2048), (512, 1984), (512, 1920), (512, 1856), (576, 1792),
        (576, 1728), (576, 1664), (640, 1600), (640, 1536), (704, 1472),
        (704, 1408), (704, 1344), (768, 1344), (768, 1280), (832, 1216),
        (832, 1152), (896, 1152), (896, 1088), (960, 1088), (960, 1024),
        (1024, 1024), (1024, 960), (1088, 960), (1088, 896), (1152, 896),
        (1152, 832), (1216, 832), (1280, 768), (1344, 768), (1408, 704),
        (1472, 704), (1536, 640), (1600, 640), (1664, 576), (1728, 576),
        (1792, 576), (1856, 512), (1920, 512), (1984, 512), (2048, 512),
    ];
    assert(pairs@ =~= resolution_table());
    let mut r: Vec<ResolutionBucket> = Vec::new();
    let mut i: usize = 0;
    while i < pairs.len()
        invariant
            pairs@ == resolution_table(),
            i <= pairs.len(),
            r@.len() == i,
            forall|j: int| 0 <= j < i ==> (#[trigger] r@[j].width, r@[j].height) == resolution_table()[j],
        decreases pairs.len() - i,
    {
        let (w, h) = pairs[i];
        r.push(ResolutionBucket { width: w, height: h });
        i = i + 1;
    }
    r
}

/// The bucket at `index` in the resolution table; an index past the table's end is rejected.
pub fn bucket_at(index: usize) -> (r: Result<ResolutionBucket, DiffusionError>)
    ensures
        index < NUM_RESOLUTIONS <==> r.is_ok(),
        r.is_ok() ==> (r->Ok_0.width, r->Ok_0.height) == resolution_table()[index as int],
        r.is_ok() ==> r->Ok_0.wf() && r->Ok_0.in_table(),
        !r.is_ok() ==> r == Err::<ResolutionBucket, DiffusionError>(DiffusionError::InvalidParameter),
{
    if index >= NUM_RESOLUTIONS {
        return Err(DiffusionError::InvalidParameter);
    }
    let table = resolutions();
    let b = table[index];
    proof {
        lemma_table_entries_wf(index as int);
        assert(resolution_table()[index as int] == (b.width, b.height));
    }
    Ok(b)
}

/// What the text encoder's size/crop embedding is given for a bucket: the target size,
/// the crop offset, and the target aspect as a size.
#[derive(Debug, Clone, Copy)]
pub struct ChannelInputs {
    pub size: (u32, u32),
    pub crop: (u32, u32),
    pub aspect_ratio: (u32, u32),
}

/// The size/crop embedding inputs for generating at `bucket` without cropping.
pub fn channel_inputs(bucket: &ResolutionBucket) -> (r: ChannelInputs)
    ensures
        r.size == (bucket.width, bucket.height),
        r.crop == (0u32, 0u32),
        r.aspect_ratio == (bucket.width, bucket.height),
{
    ChannelInputs {
        size: (bucket.width, bucket.height),
        crop: (0, 0),
        aspect_ratio: (bucket.width, bucket.height),
    }
}

/// Whether `bucket` is an entry of the resolution table.
pub fn is_supported(bucket: &ResolutionBucket) -> (r: bool)
    ensures
        r == bucket.in_table(),
{
    let table = resolutions();
    let mut i: usize = 0;
    while i < table.len()
        invariant
            table@.len() == NUM_RESOLUTIONS,
            i <= NUM_RESOLUTIONS,
            forall|j: int| 0 <= j < NUM_RESOLUTIONS ==> (#[trigger] table@[j].width, table@[j].height) == resolution_table()[j],
            forall|j: int| 0 <= j < i ==> resolution_table()[j] != (bucket.width, bucket.height),
        decreases NUM_RESOLUTIONS - i,
    {
        if table[i].width == bucket.width && table[i].height == bucket.height {
            assert((table@[i as int].width, table@[i as int].height) == resolution_table()[i as int]);
            return true;
        }
        i = i + 1;
    }
    proof {
        assert forall|j: int| 0 <= j < NUM_RESOLUTIONS implies #[trigger] resolution_table()[j] != (bucket.width, bucket.height) by {
            assert((table@[j].width, table@[j].height) == resolution_table()[j]);
        }
    }
    false
}

} // verus!
