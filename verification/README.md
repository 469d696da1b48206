# image_processing

An image-processing application: an image is loaded, a chain of processing steps
(filters) is applied to it one after the other, the chain can be saved as a project
and loaded again, and the results can be exported.

The crate is split in two.

- `src/` is the library, written in Verus and verified: pixel positions and
  rectangular areas and their walks, two-dimensional matrices, image layers and
  images, the border extension of matrices and images, the integer pixel
  operations (histograms, the median of a window, the brightness cut, the gray
  value of a pixel), the configurations of the filters and the text their settings
  are saved in, the names filters are saved under, the text of a project file, the
  chain of processing steps and the decisions of the processing line.
- `app/` is the program around it: the window and its dialogs, reading and writing
  files, and the filters whose arithmetic is floating point (the linear filters,
  the local contrast, graying, histogram equalization and Canny's edge detector),
  which take from the library what they decide on integers.

`tests/` holds the tests of the library.
