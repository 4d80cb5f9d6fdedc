use vstd::prelude::*;

verus! {

/// Whether a confidence mask of size `mask_size` (width, height) must be resized to be
/// reported with an image of size `image_size`: a mask of the image's size is reported
/// as it is, any other is resized to the image's size.
pub fn confidence_mask_needs_resize(mask_size: (u32, u32), image_size: (u32, u32)) -> (res: bool)
    ensures
        res <==> mask_size != image_size,
{
    !(mask_size.0 == image_size.0 && mask_size.1 == image_size.1)
}

} // verus!
