//! Conversion between 8-bit sRGB and 16-bit linear light.
//!
//! The sRGB transfer curve is fixed, so its values are tables: the linear
//! value of each sRGB level (the curve `((x + 0.055) / 1.055)^2.4`, linear
//! below 0.04045, scaled to 65535 and rounded), and for the way back the
//! least linear value that each sRGB level is the rounding of.

use vstd::prelude::*;
use vstd::slice::SliceAdditionalExecFns;

verus! {

/// The linear value (0..=65535) of sRGB level `v` (0..=255).
pub open spec fn linear_level(v: int) -> int {
    if v <= 127 {
        if v <= 63 {
            if v <= 31 {
                if v <= 15 {
                    if v <= 7 {
                        if v <= 3 {
                            if v <= 1 {
                                if v <= 0 {
                                    0
                                } else {
                                    20
                                }
                            } else {
                                if v <= 2 {
                                    40
                                } else {
                                    60
                                }
                            }
                        } else {
                            if v <= 5 {
                                if v <= 4 {
                                    80
                                } else {
                                    99
                                }
                            } else {
                                if v <= 6 {
                                    119
                                } else {
                                    139
                                }
                            }
                        }
                    } else {
                        if v <= 11 {
                            if v <= 9 {
                                if v <= 8 {
                                    159
                                } else {
                                    179
                                }
                            } else {
                                if v <= 10 {
                                    199
                                } else {
                                    219
                                }
                            }
                        } else {
                            if v <= 13 {
                                if v <= 12 {
                                    241
                                } else {
                                    264
                                }
                            } else {
                                if v <= 14 {
                                    288
                                } else {
                                    313
                                }
                            }
                        }
                    }
                } else {
                    if v <= 23 {
                        if v <= 19 {
                            if v <= 17 {
                                if v <= 16 {
                                    340
                                } else {
                                    367
                                }
                            } else {
                                if v <= 18 {
                                    396
                                } else {
                                    427
                                }
                            }
                        } else {
                            if v <= 21 {
                                if v <= 20 {
                                    458
                                } else {
                                    491
                                }
                            } else {
                                if v <= 22 {
                                    526
                                } else {
                                    562
                                }
                            }
                        }
                    } else {
                        if v <= 27 {
                            if v <= 25 {
                                if v <= 24 {
                                    599
                                } else {
                                    637
                                }
                            } else {
                                if v <= 26 {
                                    677
                                } else {
                                    718
                                }
                            }
                        } else {
                            if v <= 29 {
                                if v <= 28 {
                                    761
                                } else {
                                    805
                                }
                            } else {
                                if v <= 30 {
                                    851
                                } else {
                                    898
                                }
                            }
                        }
                    }
                }
            } else {
                if v <= 47 {
                    if v <= 39 {
                        if v <= 35 {
                            if v <= 33 {
                                if v <= 32 {
                                    947
                                } else {
                                    997
                                }
                            } else {
                                if v <= 34 {
                                    1048
                                } else {
                                    1101
                                }
                            }
                        } else {
                            if v <= 37 {
                                if v <= 36 {
                                    1156
                                } else {
                                    1212
                                }
                            } else {
                                if v <= 38 {
                                    1270
                                } else {
                                    1330
                                }
                            }
                        }
                    } else {
                        if v <= 43 {
                            if v <= 41 {
                                if v <= 40 {
                                    1391
                                } else {
                                    1453
                                }
                            } else {
                                if v <= 42 {
                                    1517
                                } else {
                                    1583
                                }
                            }
                        } else {
                            if v <= 45 {
                                if v <= 44 {
                                    1651
                                } else {
                                    1720
                                }
                            } else {
                                if v <= 46 {
                                    1790
                                } else {
                                    1863
                                }
                            }
                        }
                    }
                } else {
                    if v <= 55 {
                        if v <= 51 {
                            if v <= 49 {
                                if v <= 48 {
                                    1937
                                } else {
                                    2013
                                }
                            } else {
                                if v <= 50 {
                                    2090
                                } else {
                                    2170
                                }
                            }
                        } else {
                            if v <= 53 {
                                if v <= 52 {
                                    2250
                                } else {
                                    2333
                                }
                            } else {
                                if v <= 54 {
                                    2418
                                } else {
                                    2504
                                }
                            }
                        }
                    } else {
                        if v <= 59 {
                            if v <= 57 {
                                if v <= 56 {
                                    2592
                                } else {
                                    2681
                                }
                            } else {
                                if v <= 58 {
                                    2773
                                } else {
                                    2866
                                }
                            }
                        } else {
                            if v <= 61 {
                                if v <= 60 {
                                    2961
                                } else {
                                    3058
                                }
                            } else {
                                if v <= 62 {
                                    3157
                                } else {
                                    3258
                                }
                            }
                        }
                    }
                }
            }
        } else {
            if v <= 95 {
                if v <= 79 {
                    if v <= 71 {
                        if v <= 67 {
                            if v <= 65 {
                                if v <= 64 {
                                    3360
                                } else {
                                    3464
                                }
                            } else {
                                if v <= 66 {
                                    3570
                                } else {
                                    3678
                                }
                            }
                        } else {
                            if v <= 69 {
                                if v <= 68 {
                                    3788
                                } else {
                                    3900
                                }
                            } else {
                                if v <= 70 {
                                    4014
                                } else {
                                    4129
                                }
                            }
                        }
                    } else {
                        if v <= 75 {
                            if v <= 73 {
                                if v <= 72 {
                                    4247
                                } else {
                                    4366
                                }
                            } else {
                                if v <= 74 {
                                    4488
                                } else {
                                    4611
                                }
                            }
                        } else {
                            if v <= 77 {
                                if v <= 76 {
                                    4736
                                } else {
                                    4864
                                }
                            } else {
                                if v <= 78 {
                                    4993
                                } else {
                                    5124
                                }
                            }
                        }
                    }
                } else {
                    if v <= 87 {
                        if v <= 83 {
                            if v <= 81 {
                                if v <= 80 {
                                    5257
                                } else {
                                    5392
                                }
                            } else {
                                if v <= 82 {
                                    5530
                                } else {
                                    5669
                                }
                            }
                        } else {
                            if v <= 85 {
                                if v <= 84 {
                                    5810
                                } else {
                                    5953
                                }
                            } else {
                                if v <= 86 {
                                    6099
                                } else {
                                    6246
                                }
                            }
                        }
                    } else {
                        if v <= 91 {
                            if v <= 89 {
                                if v <= 88 {
                                    6395
                                } else {
                                    6547
                                }
                            } else {
                                if v <= 90 {
                                    6700
                                } else {
                                    6856
                                }
                            }
                        } else {
                            if v <= 93 {
                                if v <= 92 {
                                    7014
                                } else {
                                    7174
                                }
                            } else {
                                if v <= 94 {
                                    7335
                                } else {
                                    7500
                                }
                            }
                        }
                    }
                }
            } else {
                if v <= 111 {
                    if v <= 103 {
                        if v <= 99 {
                            if v <= 97 {
                                if v <= 96 {
                                    7666
                                } else {
                                    7834
                                }
                            } else {
                                if v <= 98 {
                                    8004
                                } else {
                                    8177
                                }
                            }
                        } else {
                            if v <= 101 {
                                if v <= 100 {
                                    8352
                                } else {
                                    8528
                                }
                            } else {
                                if v <= 102 {
                                    8708
                                } else {
                                    8889
                                }
                            }
                        }
                    } else {
                        if v <= 107 {
                            if v <= 105 {
                                if v <= 104 {
                                    9072
                                } else {
                                    9258
                                }
                            } else {
                                if v <= 106 {
                                    9445
                                } else {
                                    9635
                                }
                            }
                        } else {
                            if v <= 109 {
                                if v <= 108 {
                                    9828
                                } else {
                                    10022
                                }
                            } else {
                                if v <= 110 {
                                    10219
                                } else {
                                    10417
                                }
                            }
                        }
                    }
                } else {
                    if v <= 119 {
                        if v <= 115 {
                            if v <= 113 {
                                if v <= 112 {
                                    10619
                                } else {
                                    10822
                                }
                            } else {
                                if v <= 114 {
                                    11028
                                } else {
                                    11235
                                }
                            }
                        } else {
                            if v <= 117 {
                                if v <= 116 {
                                    11446
                                } else {
                                    11658
                                }
                            } else {
                                if v <= 118 {
                                    11873
                                } else {
                                    12090
                                }
                            }
                        }
                    } else {
                        if v <= 123 {
                            if v <= 121 {
                                if v <= 120 {
                                    12309
                                } else {
                                    12530
                                }
                            } else {
                                if v <= 122 {
                                    12754
                                } else {
                                    12980
                                }
                            }
                        } else {
                            if v <= 125 {
                                if v <= 124 {
                                    13209
                                } else {
                                    13440
                                }
                            } else {
                                if v <= 126 {
                                    13673
                                } else {
                                    13909
                                }
                            }
                        }
                    }
                }
            }
        }
    } else {
        if v <= 191 {
            if v <= 159 {
                if v <= 143 {
                    if v <= 135 {
                        if v <= 131 {
                            if v <= 129 {
                                if v <= 128 {
                                    14146
                                } else {
                                    14387
                                }
                            } else {
                                if v <= 130 {
                                    14629
                                } else {
                                    14874
                                }
                            }
                        } else {
                            if v <= 133 {
                                if v <= 132 {
                                    15122
                                } else {
                                    15371
                                }
                            } else {
                                if v <= 134 {
                                    15623
                                } else {
                                    15878
                                }
                            }
                        }
                    } else {
                        if v <= 139 {
                            if v <= 137 {
                                if v <= 136 {
                                    16135
                                } else {
                                    16394
                                }
                            } else {
                                if v <= 138 {
                                    16656
                                } else {
                                    16920
                                }
                            }
                        } else {
                            if v <= 141 {
                                if v <= 140 {
                                    17187
                                } else {
                                    17456
                                }
                            } else {
                                if v <= 142 {
                                    17727
                                } else {
                                    18001
                                }
                            }
                        }
                    }
                } else {
                    if v <= 151 {
                        if v <= 147 {
                            if v <= 145 {
                                if v <= 144 {
                                    18277
                                } else {
                                    18556
                                }
                            } else {
                                if v <= 146 {
                                    18837
                                } else {
                                    19121
                                }
                            }
                        } else {
                            if v <= 149 {
                                if v <= 148 {
                                    19407
                                } else {
                                    19696
                                }
                            } else {
                                if v <= 150 {
                                    19987
                                } else {
                                    20281
                                }
                            }
                        }
                    } else {
                        if v <= 155 {
                            if v <= 153 {
                                if v <= 152 {
                                    20577
                                } else {
                                    20876
                                }
                            } else {
                                if v <= 154 {
                                    21177
                                } else {
                                    21481
                                }
                            }
                        } else {
                            if v <= 157 {
                                if v <= 156 {
                                    21787
                                } else {
                                    22096
                                }
                            } else {
                                if v <= 158 {
                                    22407
                                } else {
                                    22721
                                }
                            }
                        }
                    }
                }
            } else {
                if v <= 175 {
                    if v <= 167 {
                        if v <= 163 {
                            if v <= 161 {
                                if v <= 160 {
                                    23038
                                } else {
                                    23357
                                }
                            } else {
                                if v <= 162 {
                                    23678
                                } else {
                                    24002
                                }
                            }
                        } else {
                            if v <= 165 {
                                if v <= 164 {
                                    24329
                                } else {
                                    24658
                                }
                            } else {
                                if v <= 166 {
                                    24990
                                } else {
                                    25325
                                }
                            }
                        }
                    } else {
                        if v <= 171 {
                            if v <= 169 {
                                if v <= 168 {
                                    25662
                                } else {
                                    26001
                                }
                            } else {
                                if v <= 170 {
                                    26344
                                } else {
                                    26688
                                }
                            }
                        } else {
                            if v <= 173 {
                                if v <= 172 {
                                    27036
                                } else {
                                    27386
                                }
                            } else {
                                if v <= 174 {
                                    27739
                                } else {
                                    28094
                                }
                            }
                        }
                    }
                } else {
                    if v <= 183 {
                        if v <= 179 {
                            if v <= 177 {
                                if v <= 176 {
                                    28452
                                } else {
                                    28813
                                }
                            } else {
                                if v <= 178 {
                                    29176
                                } else {
                                    29542
                                }
                            }
                        } else {
                            if v <= 181 {
                                if v <= 180 {
                                    29911
                                } else {
                                    30282
                                }
                            } else {
                                if v <= 182 {
                                    30656
                                } else {
                                    31033
                                }
                            }
                        }
                    } else {
                        if v <= 187 {
                            if v <= 185 {
                                if v <= 184 {
                                    31412
                                } else {
                                    31794
                                }
                            } else {
                                if v <= 186 {
                                    32179
                                } else {
                                    32567
                                }
                            }
                        } else {
                            if v <= 189 {
                                if v <= 188 {
                                    32957
                                } else {
                                    33350
                                }
                            } else {
                                if v <= 190 {
                                    33745
                                } else {
                                    34143
                                }
                            }
                        }
                    }
                }
            }
        } else {
            if v <= 223 {
                if v <= 207 {
                    if v <= 199 {
                        if v <= 195 {
                            if v <= 193 {
                                if v <= 192 {
                                    34544
                                } else {
                                    34948
                                }
                            } else {
                                if v <= 194 {
                                    35355
                                } else {
                                    35764
                                }
                            }
                        } else {
                            if v <= 197 {
                                if v <= 196 {
                                    36176
                                } else {
                                    36591
                                }
                            } else {
                                if v <= 198 {
                                    37008
                                } else {
                                    37429
                                }
                            }
                        }
                    } else {
                        if v <= 203 {
                            if v <= 201 {
                                if v <= 200 {
                                    37852
                                } else {
                                    38278
                                }
                            } else {
                                if v <= 202 {
                                    38706
                                } else {
                                    39138
                                }
                            }
                        } else {
                            if v <= 205 {
                                if v <= 204 {
                                    39572
                                } else {
                                    40009
                                }
                            } else {
                                if v <= 206 {
                                    40449
                                } else {
                                    40891
                                }
                            }
                        }
                    }
                } else {
                    if v <= 215 {
                        if v <= 211 {
                            if v <= 209 {
                                if v <= 208 {
                                    41337
                                } else {
                                    41785
                                }
                            } else {
                                if v <= 210 {
                                    42236
                                } else {
                                    42690
                                }
                            }
                        } else {
                            if v <= 213 {
                                if v <= 212 {
                                    43147
                                } else {
                                    43606
                                }
                            } else {
                                if v <= 214 {
                                    44069
                                } else {
                                    44534
                                }
                            }
                        }
                    } else {
                        if v <= 219 {
                            if v <= 217 {
                                if v <= 216 {
                                    45002
                                } else {
                                    45473
                                }
                            } else {
                                if v <= 218 {
                                    45947
                                } else {
                                    46423
                                }
                            }
                        } else {
                            if v <= 221 {
                                if v <= 220 {
                                    46903
                                } else {
                                    47385
                                }
                            } else {
                                if v <= 222 {
                                    47871
                                } else {
                                    48359
                                }
                            }
                        }
                    }
                }
            } else {
                if v <= 239 {
                    if v <= 231 {
                        if v <= 227 {
                            if v <= 225 {
                                if v <= 224 {
                                    48850
                                } else {
                                    49344
                                }
                            } else {
                                if v <= 226 {
                                    49841
                                } else {
                                    50341
                                }
                            }
                        } else {
                            if v <= 229 {
                                if v <= 228 {
                                    50844
                                } else {
                                    51349
                                }
                            } else {
                                if v <= 230 {
                                    51858
                                } else {
                                    52369
                                }
                            }
                        }
                    } else {
                        if v <= 235 {
                            if v <= 233 {
                                if v <= 232 {
                                    52884
                                } else {
                                    53401
                                }
                            } else {
                                if v <= 234 {
                                    53921
                                } else {
                                    54445
                                }
                            }
                        } else {
                            if v <= 237 {
                                if v <= 236 {
                                    54971
                                } else {
                                    55500
                                }
                            } else {
                                if v <= 238 {
                                    56032
                                } else {
                                    56567
                                }
                            }
                        }
                    }
                } else {
                    if v <= 247 {
                        if v <= 243 {
                            if v <= 241 {
                                if v <= 240 {
                                    57105
                                } else {
                                    57646
                                }
                            } else {
                                if v <= 242 {
                                    58190
                                } else {
                                    58737
                                }
                            }
                        } else {
                            if v <= 245 {
                                if v <= 244 {
                                    59287
                                } else {
                                    59840
                                }
                            } else {
                                if v <= 246 {
                                    60396
                                } else {
                                    60955
                                }
                            }
                        }
                    } else {
                        if v <= 251 {
                            if v <= 249 {
                                if v <= 248 {
                                    61517
                                } else {
                                    62082
                                }
                            } else {
                                if v <= 250 {
                                    62650
                                } else {
                                    63221
                                }
                            }
                        } else {
                            if v <= 253 {
                                if v <= 252 {
                                    63795
                                } else {
                                    64372
                                }
                            } else {
                                if v <= 254 {
                                    64952
                                } else {
                                    65535
                                }
                            }
                        }
                    }
                }
            }
        }
    }
}

/// The least linear value whose sRGB rounding is at least level `v`.
pub open spec fn threshold(v: int) -> int {
    if v <= 127 {
        if v <= 63 {
            if v <= 31 {
                if v <= 15 {
                    if v <= 7 {
                        if v <= 3 {
                            if v <= 1 {
                                if v <= 0 {
                                    0
                                } else {
                                    10
                                }
                            } else {
                                if v <= 2 {
                                    30
                                } else {
                                    50
                                }
                            }
                        } else {
                            if v <= 5 {
                                if v <= 4 {
                                    70
                                } else {
                                    90
                                }
                            } else {
                                if v <= 6 {
                                    110
                                } else {
                                    130
                                }
                            }
                        }
                    } else {
                        if v <= 11 {
                            if v <= 9 {
                                if v <= 8 {
                                    150
                                } else {
                                    170
                                }
                            } else {
                                if v <= 10 {
                                    189
                                } else {
                                    209
                                }
                            }
                        } else {
                            if v <= 13 {
                                if v <= 12 {
                                    230
                                } else {
                                    253
                                }
                            } else {
                                if v <= 14 {
                                    276
                                } else {
                                    301
                                }
                            }
                        }
                    }
                } else {
                    if v <= 23 {
                        if v <= 19 {
                            if v <= 17 {
                                if v <= 16 {
                                    327
                                } else {
                                    354
                                }
                            } else {
                                if v <= 18 {
                                    382
                                } else {
                                    412
                                }
                            }
                        } else {
                            if v <= 21 {
                                if v <= 20 {
                                    443
                                } else {
                                    475
                                }
                            } else {
                                if v <= 22 {
                                    509
                                } else {
                                    544
                                }
                            }
                        }
                    } else {
                        if v <= 27 {
                            if v <= 25 {
                                if v <= 24 {
                                    580
                                } else {
                                    618
                                }
                            } else {
                                if v <= 26 {
                                    657
                                } else {
                                    698
                                }
                            }
                        } else {
                            if v <= 29 {
                                if v <= 28 {
                                    740
                                } else {
                                    783
                                }
                            } else {
                                if v <= 30 {
                                    828
                                } else {
                                    875
                                }
                            }
                        }
                    }
                }
            } else {
                if v <= 47 {
                    if v <= 39 {
                        if v <= 35 {
                            if v <= 33 {
                                if v <= 32 {
                                    923
                                } else {
                                    972
                                }
                            } else {
                                if v <= 34 {
                                    1023
                                } else {
                                    1075
                                }
                            }
                        } else {
                            if v <= 37 {
                                if v <= 36 {
                                    1129
                                } else {
                                    1185
                                }
                            } else {
                                if v <= 38 {
                                    1242
                                } else {
                                    1300
                                }
                            }
                        }
                    } else {
                        if v <= 43 {
                            if v <= 41 {
                                if v <= 40 {
                                    1360
                                } else {
                                    1422
                                }
                            } else {
                                if v <= 42 {
                                    1486
                                } else {
                                    1551
                                }
                            }
                        } else {
                            if v <= 45 {
                                if v <= 44 {
                                    1617
                                } else {
                                    1685
                                }
                            } else {
                                if v <= 46 {
                                    1755
                                } else {
                                    1827
                                }
                            }
                        }
                    }
                } else {
                    if v <= 55 {
                        if v <= 51 {
                            if v <= 49 {
                                if v <= 48 {
                                    1900
                                } else {
                                    1975
                                }
                            } else {
                                if v <= 50 {
                                    2052
                                } else {
                                    2130
                                }
                            }
                        } else {
                            if v <= 53 {
                                if v <= 52 {
                                    2210
                                } else {
                                    2292
                                }
                            } else {
                                if v <= 54 {
                                    2376
                                } else {
                                    2461
                                }
                            }
                        }
                    } else {
                        if v <= 59 {
                            if v <= 57 {
                                if v <= 56 {
                                    2548
                                } else {
                                    2637
                                }
                            } else {
                                if v <= 58 {
                                    2727
                                } else {
                                    2820
                                }
                            }
                        } else {
                            if v <= 61 {
                                if v <= 60 {
                                    2914
                                } else {
                                    3010
                                }
                            } else {
                                if v <= 62 {
                                    3108
                                } else {
                                    3208
                                }
                            }
                        }
                    }
                }
            }
        } else {
            if v <= 95 {
                if v <= 79 {
                    if v <= 71 {
                        if v <= 67 {
                            if v <= 65 {
                                if v <= 64 {
                                    3309
                                } else {
                                    3412
                                }
                            } else {
                                if v <= 66 {
                                    3518
                                } else {
                                    3625
                                }
                            }
                        } else {
                            if v <= 69 {
                                if v <= 68 {
                                    3734
                                } else {
                                    3844
                                }
                            } else {
                                if v <= 70 {
                                    3957
                                } else {
                                    4072
                                }
                            }
                        }
                    } else {
                        if v <= 75 {
                            if v <= 73 {
                                if v <= 72 {
                                    4188
                                } else {
                                    4307
                                }
                            } else {
                                if v <= 74 {
                                    4427
                                } else {
                                    4550
                                }
                            }
                        } else {
                            if v <= 77 {
                                if v <= 76 {
                                    4674
                                } else {
                                    4800
                                }
                            } else {
                                if v <= 78 {
                                    4928
                                } else {
                                    5059
                                }
                            }
                        }
                    }
                } else {
                    if v <= 87 {
                        if v <= 83 {
                            if v <= 81 {
                                if v <= 80 {
                                    5191
                                } else {
                                    5325
                                }
                            } else {
                                if v <= 82 {
                                    5461
                                } else {
                                    5599
                                }
                            }
                        } else {
                            if v <= 85 {
                                if v <= 84 {
                                    5740
                                } else {
                                    5882
                                }
                            } else {
                                if v <= 86 {
                                    6026
                                } else {
                                    6173
                                }
                            }
                        }
                    } else {
                        if v <= 91 {
                            if v <= 89 {
                                if v <= 88 {
                                    6321
                                } else {
                                    6471
                                }
                            } else {
                                if v <= 90 {
                                    6624
                                } else {
                                    6778
                                }
                            }
                        } else {
                            if v <= 93 {
                                if v <= 92 {
                                    6935
                                } else {
                                    7094
                                }
                            } else {
                                if v <= 94 {
                                    7255
                                } else {
                                    7418
                                }
                            }
                        }
                    }
                }
            } else {
                if v <= 111 {
                    if v <= 103 {
                        if v <= 99 {
                            if v <= 97 {
                                if v <= 96 {
                                    7583
                                } else {
                                    7750
                                }
                            } else {
                                if v <= 98 {
                                    7919
                                } else {
                                    8091
                                }
                            }
                        } else {
                            if v <= 101 {
                                if v <= 100 {
                                    8265
                                } else {
                                    8440
                                }
                            } else {
                                if v <= 102 {
                                    8618
                                } else {
                                    8798
                                }
                            }
                        }
                    } else {
                        if v <= 107 {
                            if v <= 105 {
                                if v <= 104 {
                                    8981
                                } else {
                                    9165
                                }
                            } else {
                                if v <= 106 {
                                    9352
                                } else {
                                    9541
                                }
                            }
                        } else {
                            if v <= 109 {
                                if v <= 108 {
                                    9732
                                } else {
                                    9925
                                }
                            } else {
                                if v <= 110 {
                                    10121
                                } else {
                                    10318
                                }
                            }
                        }
                    }
                } else {
                    if v <= 119 {
                        if v <= 115 {
                            if v <= 113 {
                                if v <= 112 {
                                    10518
                                } else {
                                    10720
                                }
                            } else {
                                if v <= 114 {
                                    10925
                                } else {
                                    11132
                                }
                            }
                        } else {
                            if v <= 117 {
                                if v <= 116 {
                                    11341
                                } else {
                                    11552
                                }
                            } else {
                                if v <= 118 {
                                    11765
                                } else {
                                    11981
                                }
                            }
                        }
                    } else {
                        if v <= 123 {
                            if v <= 121 {
                                if v <= 120 {
                                    12199
                                } else {
                                    12420
                                }
                            } else {
                                if v <= 122 {
                                    12643
                                } else {
                                    12868
                                }
                            }
                        } else {
                            if v <= 125 {
                                if v <= 124 {
                                    13095
                                } else {
                                    13325
                                }
                            } else {
                                if v <= 126 {
                                    13557
                                } else {
                                    13791
                                }
                            }
                        }
                    }
                }
            }
        }
    } else {
        if v <= 191 {
            if v <= 159 {
                if v <= 143 {
                    if v <= 135 {
                        if v <= 131 {
                            if v <= 129 {
                                if v <= 128 {
                                    14028
                                } else {
                                    14267
                                }
                            } else {
                                if v <= 130 {
                                    14508
                                } else {
                                    14752
                                }
                            }
                        } else {
                            if v <= 133 {
                                if v <= 132 {
                                    14998
                                } else {
                                    15247
                                }
                            } else {
                                if v <= 134 {
                                    15498
                                } else {
                                    15751
                                }
                            }
                        }
                    } else {
                        if v <= 139 {
                            if v <= 137 {
                                if v <= 136 {
                                    16007
                                } else {
                                    16265
                                }
                            } else {
                                if v <= 138 {
                                    16525
                                } else {
                                    16788
                                }
                            }
                        } else {
                            if v <= 141 {
                                if v <= 140 {
                                    17054
                                } else {
                                    17321
                                }
                            } else {
                                if v <= 142 {
                                    17592
                                } else {
                                    17864
                                }
                            }
                        }
                    }
                } else {
                    if v <= 151 {
                        if v <= 147 {
                            if v <= 145 {
                                if v <= 144 {
                                    18139
                                } else {
                                    18417
                                }
                            } else {
                                if v <= 146 {
                                    18697
                                } else {
                                    18980
                                }
                            }
                        } else {
                            if v <= 149 {
                                if v <= 148 {
                                    19264
                                } else {
                                    19552
                                }
                            } else {
                                if v <= 150 {
                                    19842
                                } else {
                                    20134
                                }
                            }
                        }
                    } else {
                        if v <= 155 {
                            if v <= 153 {
                                if v <= 152 {
                                    20429
                                } else {
                                    20727
                                }
                            } else {
                                if v <= 154 {
                                    21027
                                } else {
                                    21329
                                }
                            }
                        } else {
                            if v <= 157 {
                                if v <= 156 {
                                    21634
                                } else {
                                    21942
                                }
                            } else {
                                if v <= 158 {
                                    22252
                                } else {
                                    22564
                                }
                            }
                        }
                    }
                }
            } else {
                if v <= 175 {
                    if v <= 167 {
                        if v <= 163 {
                            if v <= 161 {
                                if v <= 160 {
                                    22880
                                } else {
                                    23197
                                }
                            } else {
                                if v <= 162 {
                                    23518
                                } else {
                                    23840
                                }
                            }
                        } else {
                            if v <= 165 {
                                if v <= 164 {
                                    24166
                                } else {
                                    24494
                                }
                            } else {
                                if v <= 166 {
                                    24824
                                } else {
                                    25158
                                }
                            }
                        }
                    } else {
                        if v <= 171 {
                            if v <= 169 {
                                if v <= 168 {
                                    25493
                                } else {
                                    25832
                                }
                            } else {
                                if v <= 170 {
                                    26173
                                } else {
                                    26516
                                }
                            }
                        } else {
                            if v <= 173 {
                                if v <= 172 {
                                    26862
                                } else {
                                    27211
                                }
                            } else {
                                if v <= 174 {
                                    27563
                                } else {
                                    27917
                                }
                            }
                        }
                    }
                } else {
                    if v <= 183 {
                        if v <= 179 {
                            if v <= 177 {
                                if v <= 176 {
                                    28273
                                } else {
                                    28633
                                }
                            } else {
                                if v <= 178 {
                                    28995
                                } else {
                                    29359
                                }
                            }
                        } else {
                            if v <= 181 {
                                if v <= 180 {
                                    29727
                                } else {
                                    30097
                                }
                            } else {
                                if v <= 182 {
                                    30469
                                } else {
                                    30845
                                }
                            }
                        }
                    } else {
                        if v <= 187 {
                            if v <= 185 {
                                if v <= 184 {
                                    31223
                                } else {
                                    31603
                                }
                            } else {
                                if v <= 186 {
                                    31987
                                } else {
                                    32373
                                }
                            }
                        } else {
                            if v <= 189 {
                                if v <= 188 {
                                    32762
                                } else {
                                    33153
                                }
                            } else {
                                if v <= 190 {
                                    33547
                                } else {
                                    33944
                                }
                            }
                        }
                    }
                }
            }
        } else {
            if v <= 223 {
                if v <= 207 {
                    if v <= 199 {
                        if v <= 195 {
                            if v <= 193 {
                                if v <= 192 {
                                    34344
                                } else {
                                    34747
                                }
                            } else {
                                if v <= 194 {
                                    35152
                                } else {
                                    35560
                                }
                            }
                        } else {
                            if v <= 197 {
                                if v <= 196 {
                                    35970
                                } else {
                                    36384
                                }
                            } else {
                                if v <= 198 {
                                    36800
                                } else {
                                    37219
                                }
                            }
                        }
                    } else {
                        if v <= 203 {
                            if v <= 201 {
                                if v <= 200 {
                                    37640
                                } else {
                                    38065
                                }
                            } else {
                                if v <= 202 {
                                    38492
                                } else {
                                    38922
                                }
                            }
                        } else {
                            if v <= 205 {
                                if v <= 204 {
                                    39355
                                } else {
                                    39790
                                }
                            } else {
                                if v <= 206 {
                                    40229
                                } else {
                                    40670
                                }
                            }
                        }
                    }
                } else {
                    if v <= 215 {
                        if v <= 211 {
                            if v <= 209 {
                                if v <= 208 {
                                    41114
                                } else {
                                    41561
                                }
                            } else {
                                if v <= 210 {
                                    42011
                                } else {
                                    42463
                                }
                            }
                        } else {
                            if v <= 213 {
                                if v <= 212 {
                                    42918
                                } else {
                                    43377
                                }
                            } else {
                                if v <= 214 {
                                    43838
                                } else {
                                    44301
                                }
                            }
                        }
                    } else {
                        if v <= 219 {
                            if v <= 217 {
                                if v <= 216 {
                                    44768
                                } else {
                                    45238
                                }
                            } else {
                                if v <= 218 {
                                    45710
                                } else {
                                    46185
                                }
                            }
                        } else {
                            if v <= 221 {
                                if v <= 220 {
                                    46663
                                } else {
                                    47144
                                }
                            } else {
                                if v <= 222 {
                                    47628
                                } else {
                                    48115
                                }
                            }
                        }
                    }
                }
            } else {
                if v <= 239 {
                    if v <= 231 {
                        if v <= 227 {
                            if v <= 225 {
                                if v <= 224 {
                                    48605
                                } else {
                                    49097
                                }
                            } else {
                                if v <= 226 {
                                    49593
                                } else {
                                    50091
                                }
                            }
                        } else {
                            if v <= 229 {
                                if v <= 228 {
                                    50592
                                } else {
                                    51096
                                }
                            } else {
                                if v <= 230 {
                                    51604
                                } else {
                                    52114
                                }
                            }
                        }
                    } else {
                        if v <= 235 {
                            if v <= 233 {
                                if v <= 232 {
                                    52627
                                } else {
                                    53142
                                }
                            } else {
                                if v <= 234 {
                                    53661
                                } else {
                                    54183
                                }
                            }
                        } else {
                            if v <= 237 {
                                if v <= 236 {
                                    54708
                                } else {
                                    55235
                                }
                            } else {
                                if v <= 238 {
                                    55766
                                } else {
                                    56300
                                }
                            }
                        }
                    }
                } else {
                    if v <= 247 {
                        if v <= 243 {
                            if v <= 241 {
                                if v <= 240 {
                                    56836
                                } else {
                                    57376
                                }
                            } else {
                                if v <= 242 {
                                    57918
                                } else {
                                    58464
                                }
                            }
                        } else {
                            if v <= 245 {
                                if v <= 244 {
                                    59012
                                } else {
                                    59564
                                }
                            } else {
                                if v <= 246 {
                                    60118
                                } else {
                                    60675
                                }
                            }
                        }
                    } else {
                        if v <= 251 {
                            if v <= 249 {
                                if v <= 248 {
                                    61236
                                } else {
                                    61799
                                }
                            } else {
                                if v <= 250 {
                                    62366
                                } else {
                                    62935
                                }
                            }
                        } else {
                            if v <= 253 {
                                if v <= 252 {
                                    63508
                                } else {
                                    64083
                                }
                            } else {
                                if v <= 254 {
                                    64662
                                } else {
                                    65244
                                }
                            }
                        }
                    }
                }
            }
        }
    }
}

/// The threshold of the level after `v` (65536 after the last level).
pub open spec fn threshold_after(v: int) -> int {
    if v >= 255 {
        65536
    } else {
        threshold(v + 1)
    }
}

/// The highest level at most `v` whose threshold is at most `y`.
pub open spec fn srgb_level(y: int, v: int) -> int
    decreases v,
{
    if v <= 0 {
        0
    } else if threshold(v) <= y {
        v
    } else {
        srgb_level(y, v - 1)
    }
}

/// The linear value of an sRGB level.
pub open spec fn linear_of(x: u8) -> u16 {
    linear_level(x as int) as u16
}

/// The sRGB level of a linear value: the highest level whose threshold it
/// reaches.
pub open spec fn srgb_of(y: u16) -> u8 {
    srgb_level(y as int, 255) as u8
}

/// The thresholds increase from `i` on.
pub open spec fn increasing_from(i: int) -> bool
    decreases 255 - i,
{
    if i >= 255 {
        true
    } else {
        threshold(i) < threshold(i + 1) && increasing_from(i + 1)
    }
}

proof fn lemma_thresholds_increase()
    ensures
        increasing_from(0),
{
    assert(increasing_from(255));
    assert(increasing_from(254));
    assert(increasing_from(253));
    assert(increasing_from(252));
    assert(increasing_from(251));
    assert(increasing_from(250));
    assert(increasing_from(249));
    assert(increasing_from(248));
    assert(increasing_from(247));
    assert(increasing_from(246));
    assert(increasing_from(245));
    assert(increasing_from(244));
    assert(increasing_from(243));
    assert(increasing_from(242));
    assert(increasing_from(241));
    assert(increasing_from(240));
    assert(increasing_from(239));
    assert(increasing_from(238));
    assert(increasing_from(237));
    assert(increasing_from(236));
    assert(increasing_from(235));
    assert(increasing_from(234));
    assert(increasing_from(233));
    assert(increasing_from(232));
    assert(increasing_from(231));
    assert(increasing_from(230));
    assert(increasing_from(229));
    assert(increasing_from(228));
    assert(increasing_from(227));
    assert(increasing_from(226));
    assert(increasing_from(225));
    assert(increasing_from(224));
    assert(increasing_from(223));
    assert(increasing_from(222));
    assert(increasing_from(221));
    assert(increasing_from(220));
    assert(increasing_from(219));
    assert(increasing_from(218));
    assert(increasing_from(217));
    assert(increasing_from(216));
    assert(increasing_from(215));
    assert(increasing_from(214));
    assert(increasing_from(213));
    assert(increasing_from(212));
    assert(increasing_from(211));
    assert(increasing_from(210));
    assert(increasing_from(209));
    assert(increasing_from(208));
    assert(increasing_from(207));
    assert(increasing_from(206));
    assert(increasing_from(205));
    assert(increasing_from(204));
    assert(increasing_from(203));
    assert(increasing_from(202));
    assert(increasing_from(201));
    assert(increasing_from(200));
    assert(increasing_from(199));
    assert(increasing_from(198));
    assert(increasing_from(197));
    assert(increasing_from(196));
    assert(increasing_from(195));
    assert(increasing_from(194));
    assert(increasing_from(193));
    assert(increasing_from(192));
    assert(increasing_from(191));
    assert(increasing_from(190));
    assert(increasing_from(189));
    assert(increasing_from(188));
    assert(increasing_from(187));
    assert(increasing_from(186));
    assert(increasing_from(185));
    assert(increasing_from(184));
    assert(increasing_from(183));
    assert(increasing_from(182));
    assert(increasing_from(181));
    assert(increasing_from(180));
    assert(increasing_from(179));
    assert(increasing_from(178));
    assert(increasing_from(177));
    assert(increasing_from(176));
    assert(increasing_from(175));
    assert(increasing_from(174));
    assert(increasing_from(173));
    assert(increasing_from(172));
    assert(increasing_from(171));
    assert(increasing_from(170));
    assert(increasing_from(169));
    assert(increasing_from(168));
    assert(increasing_from(167));
    assert(increasing_from(166));
    assert(increasing_from(165));
    assert(increasing_from(164));
    assert(increasing_from(163));
    assert(increasing_from(162));
    assert(increasing_from(161));
    assert(increasing_from(160));
    assert(increasing_from(159));
    assert(increasing_from(158));
    assert(increasing_from(157));
    assert(increasing_from(156));
    assert(increasing_from(155));
    assert(increasing_from(154));
    assert(increasing_from(153));
    assert(increasing_from(152));
    assert(increasing_from(151));
    assert(increasing_from(150));
    assert(increasing_from(149));
    assert(increasing_from(148));
    assert(increasing_from(147));
    assert(increasing_from(146));
    assert(increasing_from(145));
    assert(increasing_from(144));
    assert(increasing_from(143));
    assert(increasing_from(142));
    assert(increasing_from(141));
    assert(increasing_from(140));
    assert(increasing_from(139));
    assert(increasing_from(138));
    assert(increasing_from(137));
    assert(increasing_from(136));
    assert(increasing_from(135));
    assert(increasing_from(134));
    assert(increasing_from(133));
    assert(increasing_from(132));
    assert(increasing_from(131));
    assert(increasing_from(130));
    assert(increasing_from(129));
    assert(increasing_from(128));
    assert(increasing_from(127));
    assert(increasing_from(126));
    assert(increasing_from(125));
    assert(increasing_from(124));
    assert(increasing_from(123));
    assert(increasing_from(122));
    assert(increasing_from(121));
    assert(increasing_from(120));
    assert(increasing_from(119));
    assert(increasing_from(118));
    assert(increasing_from(117));
    assert(increasing_from(116));
    assert(increasing_from(115));
    assert(increasing_from(114));
    assert(increasing_from(113));
    assert(increasing_from(112));
    assert(increasing_from(111));
    assert(increasing_from(110));
    assert(increasing_from(109));
    assert(increasing_from(108));
    assert(increasing_from(107));
    assert(increasing_from(106));
    assert(increasing_from(105));
    assert(increasing_from(104));
    assert(increasing_from(103));
    assert(increasing_from(102));
    assert(increasing_from(101));
    assert(increasing_from(100));
    assert(increasing_from(99));
    assert(increasing_from(98));
    assert(increasing_from(97));
    assert(increasing_from(96));
    assert(increasing_from(95));
    assert(increasing_from(94));
    assert(increasing_from(93));
    assert(increasing_from(92));
    assert(increasing_from(91));
    assert(increasing_from(90));
    assert(increasing_from(89));
    assert(increasing_from(88));
    assert(increasing_from(87));
    assert(increasing_from(86));
    assert(increasing_from(85));
    assert(increasing_from(84));
    assert(increasing_from(83));
    assert(increasing_from(82));
    assert(increasing_from(81));
    assert(increasing_from(80));
    assert(increasing_from(79));
    assert(increasing_from(78));
    assert(increasing_from(77));
    assert(increasing_from(76));
    assert(increasing_from(75));
    assert(increasing_from(74));
    assert(increasing_from(73));
    assert(increasing_from(72));
    assert(increasing_from(71));
    assert(increasing_from(70));
    assert(increasing_from(69));
    assert(increasing_from(68));
    assert(increasing_from(67));
    assert(increasing_from(66));
    assert(increasing_from(65));
    assert(increasing_from(64));
    assert(increasing_from(63));
    assert(increasing_from(62));
    assert(increasing_from(61));
    assert(increasing_from(60));
    assert(increasing_from(59));
    assert(increasing_from(58));
    assert(increasing_from(57));
    assert(increasing_from(56));
    assert(increasing_from(55));
    assert(increasing_from(54));
    assert(increasing_from(53));
    assert(increasing_from(52));
    assert(increasing_from(51));
    assert(increasing_from(50));
    assert(increasing_from(49));
    assert(increasing_from(48));
    assert(increasing_from(47));
    assert(increasing_from(46));
    assert(increasing_from(45));
    assert(increasing_from(44));
    assert(increasing_from(43));
    assert(increasing_from(42));
    assert(increasing_from(41));
    assert(increasing_from(40));
    assert(increasing_from(39));
    assert(increasing_from(38));
    assert(increasing_from(37));
    assert(increasing_from(36));
    assert(increasing_from(35));
    assert(increasing_from(34));
    assert(increasing_from(33));
    assert(increasing_from(32));
    assert(increasing_from(31));
    assert(increasing_from(30));
    assert(increasing_from(29));
    assert(increasing_from(28));
    assert(increasing_from(27));
    assert(increasing_from(26));
    assert(increasing_from(25));
    assert(increasing_from(24));
    assert(increasing_from(23));
    assert(increasing_from(22));
    assert(increasing_from(21));
    assert(increasing_from(20));
    assert(increasing_from(19));
    assert(increasing_from(18));
    assert(increasing_from(17));
    assert(increasing_from(16));
    assert(increasing_from(15));
    assert(increasing_from(14));
    assert(increasing_from(13));
    assert(increasing_from(12));
    assert(increasing_from(11));
    assert(increasing_from(10));
    assert(increasing_from(9));
    assert(increasing_from(8));
    assert(increasing_from(7));
    assert(increasing_from(6));
    assert(increasing_from(5));
    assert(increasing_from(4));
    assert(increasing_from(3));
    assert(increasing_from(2));
    assert(increasing_from(1));
    assert(increasing_from(0));
}

/// Consecutive thresholds increase.
proof fn lemma_threshold_step(k: int)
    requires
        0 <= k < 255,
    ensures
        threshold(k) < threshold(k + 1),
{
    lemma_thresholds_increase();
    lemma_increasing_suffix(0, k);
}

proof fn lemma_increasing_suffix(i: int, k: int)
    requires
        0 <= i <= k < 255,
        increasing_from(i),
    ensures
        threshold(k) < threshold(k + 1),
    decreases k - i,
{
    if i < k {
        lemma_increasing_suffix(i + 1, k);
    }
}

/// The thresholds increase.
proof fn lemma_threshold_order(i: int, j: int)
    requires
        0 <= i < j <= 255,
    ensures
        threshold(i) < threshold(j),
    decreases j - i,
{
    lemma_threshold_step(j - 1);
    if i < j - 1 {
        lemma_threshold_order(i, j - 1);
    }
}

/// A linear value between the threshold of level `v` and that of the next
/// level has sRGB level `v`.
pub proof fn lemma_level_in_run(y: int, v: int)
    requires
        0 <= v <= 255,
        threshold(v) <= y < threshold_after(v),
    ensures
        srgb_level(y, 255) == v,
{
    lemma_level_down(y, v, 255);
}

proof fn lemma_level_down(y: int, v: int, k: int)
    requires
        0 <= v <= k <= 255,
        threshold(v) <= y < threshold_after(v),
    ensures
        srgb_level(y, k) == v,
    decreases k - v,
{
    if k > v {
        if v + 1 < k {
            lemma_threshold_order(v + 1, k);
        }
        assert(threshold(k) > y);
        lemma_level_down(y, v, k - 1);
    }
}

/// Each level's linear value lies in that level's run, from `i` on.
pub open spec fn roundtrip_from(i: int) -> bool
    decreases 256 - i,
{
    if i >= 256 {
        true
    } else {
        threshold(i) <= linear_level(i) < threshold_after(i) && roundtrip_from(i + 1)
    }
}

proof fn lemma_roundtrip_table()
    ensures
        roundtrip_from(0),
{
    assert(roundtrip_from(256));
    assert(roundtrip_from(255));
    assert(roundtrip_from(254));
    assert(roundtrip_from(253));
    assert(roundtrip_from(252));
    assert(roundtrip_from(251));
    assert(roundtrip_from(250));
    assert(roundtrip_from(249));
    assert(roundtrip_from(248));
    assert(roundtrip_from(247));
    assert(roundtrip_from(246));
    assert(roundtrip_from(245));
    assert(roundtrip_from(244));
    assert(roundtrip_from(243));
    assert(roundtrip_from(242));
    assert(roundtrip_from(241));
    assert(roundtrip_from(240));
    assert(roundtrip_from(239));
    assert(roundtrip_from(238));
    assert(roundtrip_from(237));
    assert(roundtrip_from(236));
    assert(roundtrip_from(235));
    assert(roundtrip_from(234));
    assert(roundtrip_from(233));
    assert(roundtrip_from(232));
    assert(roundtrip_from(231));
    assert(roundtrip_from(230));
    assert(roundtrip_from(229));
    assert(roundtrip_from(228));
    assert(roundtrip_from(227));
    assert(roundtrip_from(226));
    assert(roundtrip_from(225));
    assert(roundtrip_from(224));
    assert(roundtrip_from(223));
    assert(roundtrip_from(222));
    assert(roundtrip_from(221));
    assert(roundtrip_from(220));
    assert(roundtrip_from(219));
    assert(roundtrip_from(218));
    assert(roundtrip_from(217));
    assert(roundtrip_from(216));
    assert(roundtrip_from(215));
    assert(roundtrip_from(214));
    assert(roundtrip_from(213));
    assert(roundtrip_from(212));
    assert(roundtrip_from(211));
    assert(roundtrip_from(210));
    assert(roundtrip_from(209));
    assert(roundtrip_from(208));
    assert(roundtrip_from(207));
    assert(roundtrip_from(206));
    assert(roundtrip_from(205));
    assert(roundtrip_from(204));
    assert(roundtrip_from(203));
    assert(roundtrip_from(202));
    assert(roundtrip_from(201));
    assert(roundtrip_from(200));
    assert(roundtrip_from(199));
    assert(roundtrip_from(198));
    assert(roundtrip_from(197));
    assert(roundtrip_from(196));
    assert(roundtrip_from(195));
    assert(roundtrip_from(194));
    assert(roundtrip_from(193));
    assert(roundtrip_from(192));
    assert(roundtrip_from(191));
    assert(roundtrip_from(190));
    assert(roundtrip_from(189));
    assert(roundtrip_from(188));
    assert(roundtrip_from(187));
    assert(roundtrip_from(186));
    assert(roundtrip_from(185));
    assert(roundtrip_from(184));
    assert(roundtrip_from(183));
    assert(roundtrip_from(182));
    assert(roundtrip_from(181));
    assert(roundtrip_from(180));
    assert(roundtrip_from(179));
    assert(roundtrip_from(178));
    assert(roundtrip_from(177));
    assert(roundtrip_from(176));
    assert(roundtrip_from(175));
    assert(roundtrip_from(174));
    assert(roundtrip_from(173));
    assert(roundtrip_from(172));
    assert(roundtrip_from(171));
    assert(roundtrip_from(170));
    assert(roundtrip_from(169));
    assert(roundtrip_from(168));
    assert(roundtrip_from(167));
    assert(roundtrip_from(166));
    assert(roundtrip_from(165));
    assert(roundtrip_from(164));
    assert(roundtrip_from(163));
    assert(roundtrip_from(162));
    assert(roundtrip_from(161));
    assert(roundtrip_from(160));
    assert(roundtrip_from(159));
    assert(roundtrip_from(158));
    assert(roundtrip_from(157));
    assert(roundtrip_from(156));
    assert(roundtrip_from(155));
    assert(roundtrip_from(154));
    assert(roundtrip_from(153));
    assert(roundtrip_from(152));
    assert(roundtrip_from(151));
    assert(roundtrip_from(150));
    assert(roundtrip_from(149));
    assert(roundtrip_from(148));
    assert(roundtrip_from(147));
    assert(roundtrip_from(146));
    assert(roundtrip_from(145));
    assert(roundtrip_from(144));
    assert(roundtrip_from(143));
    assert(roundtrip_from(142));
    assert(roundtrip_from(141));
    assert(roundtrip_from(140));
    assert(roundtrip_from(139));
    assert(roundtrip_from(138));
    assert(roundtrip_from(137));
    assert(roundtrip_from(136));
    assert(roundtrip_from(135));
    assert(roundtrip_from(134));
    assert(roundtrip_from(133));
    assert(roundtrip_from(132));
    assert(roundtrip_from(131));
    assert(roundtrip_from(130));
    assert(roundtrip_from(129));
    assert(roundtrip_from(128));
    assert(roundtrip_from(127));
    assert(roundtrip_from(126));
    assert(roundtrip_from(125));
    assert(roundtrip_from(124));
    assert(roundtrip_from(123));
    assert(roundtrip_from(122));
    assert(roundtrip_from(121));
    assert(roundtrip_from(120));
    assert(roundtrip_from(119));
    assert(roundtrip_from(118));
    assert(roundtrip_from(117));
    assert(roundtrip_from(116));
    assert(roundtrip_from(115));
    assert(roundtrip_from(114));
    assert(roundtrip_from(113));
    assert(roundtrip_from(112));
    assert(roundtrip_from(111));
    assert(roundtrip_from(110));
    assert(roundtrip_from(109));
    assert(roundtrip_from(108));
    assert(roundtrip_from(107));
    assert(roundtrip_from(106));
    assert(roundtrip_from(105));
    assert(roundtrip_from(104));
    assert(roundtrip_from(103));
    assert(roundtrip_from(102));
    assert(roundtrip_from(101));
    assert(roundtrip_from(100));
    assert(roundtrip_from(99));
    assert(roundtrip_from(98));
    assert(roundtrip_from(97));
    assert(roundtrip_from(96));
    assert(roundtrip_from(95));
    assert(roundtrip_from(94));
    assert(roundtrip_from(93));
    assert(roundtrip_from(92));
    assert(roundtrip_from(91));
    assert(roundtrip_from(90));
    assert(roundtrip_from(89));
    assert(roundtrip_from(88));
    assert(roundtrip_from(87));
    assert(roundtrip_from(86));
    assert(roundtrip_from(85));
    assert(roundtrip_from(84));
    assert(roundtrip_from(83));
    assert(roundtrip_from(82));
    assert(roundtrip_from(81));
    assert(roundtrip_from(80));
    assert(roundtrip_from(79));
    assert(roundtrip_from(78));
    assert(roundtrip_from(77));
    assert(roundtrip_from(76));
    assert(roundtrip_from(75));
    assert(roundtrip_from(74));
    assert(roundtrip_from(73));
    assert(roundtrip_from(72));
    assert(roundtrip_from(71));
    assert(roundtrip_from(70));
    assert(roundtrip_from(69));
    assert(roundtrip_from(68));
    assert(roundtrip_from(67));
    assert(roundtrip_from(66));
    assert(roundtrip_from(65));
    assert(roundtrip_from(64));
    assert(roundtrip_from(63));
    assert(roundtrip_from(62));
    assert(roundtrip_from(61));
    assert(roundtrip_from(60));
    assert(roundtrip_from(59));
    assert(roundtrip_from(58));
    assert(roundtrip_from(57));
    assert(roundtrip_from(56));
    assert(roundtrip_from(55));
    assert(roundtrip_from(54));
    assert(roundtrip_from(53));
    assert(roundtrip_from(52));
    assert(roundtrip_from(51));
    assert(roundtrip_from(50));
    assert(roundtrip_from(49));
    assert(roundtrip_from(48));
    assert(roundtrip_from(47));
    assert(roundtrip_from(46));
    assert(roundtrip_from(45));
    assert(roundtrip_from(44));
    assert(roundtrip_from(43));
    assert(roundtrip_from(42));
    assert(roundtrip_from(41));
    assert(roundtrip_from(40));
    assert(roundtrip_from(39));
    assert(roundtrip_from(38));
    assert(roundtrip_from(37));
    assert(roundtrip_from(36));
    assert(roundtrip_from(35));
    assert(roundtrip_from(34));
    assert(roundtrip_from(33));
    assert(roundtrip_from(32));
    assert(roundtrip_from(31));
    assert(roundtrip_from(30));
    assert(roundtrip_from(29));
    assert(roundtrip_from(28));
    assert(roundtrip_from(27));
    assert(roundtrip_from(26));
    assert(roundtrip_from(25));
    assert(roundtrip_from(24));
    assert(roundtrip_from(23));
    assert(roundtrip_from(22));
    assert(roundtrip_from(21));
    assert(roundtrip_from(20));
    assert(roundtrip_from(19));
    assert(roundtrip_from(18));
    assert(roundtrip_from(17));
    assert(roundtrip_from(16));
    assert(roundtrip_from(15));
    assert(roundtrip_from(14));
    assert(roundtrip_from(13));
    assert(roundtrip_from(12));
    assert(roundtrip_from(11));
    assert(roundtrip_from(10));
    assert(roundtrip_from(9));
    assert(roundtrip_from(8));
    assert(roundtrip_from(7));
    assert(roundtrip_from(6));
    assert(roundtrip_from(5));
    assert(roundtrip_from(4));
    assert(roundtrip_from(3));
    assert(roundtrip_from(2));
    assert(roundtrip_from(1));
    assert(roundtrip_from(0));
}

proof fn lemma_roundtrip_at(i: int, k: int)
    requires
        0 <= i <= k < 256,
        roundtrip_from(i),
    ensures
        threshold(k) <= linear_level(k) < threshold_after(k),
    decreases k - i,
{
    if i < k {
        lemma_roundtrip_at(i + 1, k);
    }
}

/// Converting an sRGB level to linear light and back gives the level again.
pub proof fn lemma_srgb_roundtrip(x: u8)
    ensures
        srgb_of(linear_of(x)) == x,
{
    lemma_roundtrip_table();
    lemma_roundtrip_at(0, x as int);
    lemma_level_in_run(linear_level(x as int), x as int);
}

fn linear_level_exec(v: u8) -> (r: u16)
    ensures
        r as int == linear_level(v as int),
{
    if v <= 127 {
        if v <= 63 {
            if v <= 31 {
                if v <= 15 {
                    if v <= 7 {
                        if v <= 3 {
                            if v <= 1 {
                                if v <= 0 {
                                    0
                                } else {
                                    20
                                }
                            } else {
                                if v <= 2 {
                                    40
                                } else {
                                    60
                                }
                            }
                        } else {
                            if v <= 5 {
                                if v <= 4 {
                                    80
                                } else {
                                    99
                                }
                            } else {
                                if v <= 6 {
                                    119
                                } else {
                                    139
                                }
                            }
                        }
                    } else {
                        if v <= 11 {
                            if v <= 9 {
                                if v <= 8 {
                                    159
                                } else {
                                    179
                                }
                            } else {
                                if v <= 10 {
                                    199
                                } else {
                                    219
                                }
                            }
                        } else {
                            if v <= 13 {
                                if v <= 12 {
                                    241
                                } else {
                                    264
                                }
                            } else {
                                if v <= 14 {
                                    288
                                } else {
                                    313
                                }
                            }
                        }
                    }
                } else {
                    if v <= 23 {
                        if v <= 19 {
                            if v <= 17 {
                                if v <= 16 {
                                    340
                                } else {
                                    367
                                }
                            } else {
                                if v <= 18 {
                                    396
                                } else {
                                    427
                                }
                            }
                        } else {
                            if v <= 21 {
                                if v <= 20 {
                                    458
                                } else {
                                    491
                                }
                            } else {
                                if v <= 22 {
                                    526
                                } else {
                                    562
                                }
                            }
                        }
                    } else {
                        if v <= 27 {
                            if v <= 25 {
                                if v <= 24 {
                                    599
                                } else {
                                    637
                                }
                            } else {
                                if v <= 26 {
                                    677
                                } else {
                                    718
                                }
                            }
                        } else {
                            if v <= 29 {
                                if v <= 28 {
                                    761
                                } else {
                                    805
                                }
                            } else {
                                if v <= 30 {
                                    851
                                } else {
                                    898
                                }
                            }
                        }
                    }
                }
            } else {
                if v <= 47 {
                    if v <= 39 {
                        if v <= 35 {
                            if v <= 33 {
                                if v <= 32 {
                                    947
                                } else {
                                    997
                                }
                            } else {
                                if v <= 34 {
                                    1048
                                } else {
                                    1101
                                }
                            }
                        } else {
                            if v <= 37 {
                                if v <= 36 {
                                    1156
                                } else {
                                    1212
                                }
                            } else {
                                if v <= 38 {
                                    1270
                                } else {
                                    1330
                                }
                            }
                        }
                    } else {
                        if v <= 43 {
                            if v <= 41 {
                                if v <= 40 {
                                    1391
                                } else {
                                    1453
                                }
                            } else {
                                if v <= 42 {
                                    1517
                                } else {
                                    1583
                                }
                            }
                        } else {
                            if v <= 45 {
                                if v <= 44 {
                                    1651
                                } else {
                                    1720
                                }
                            } else {
                                if v <= 46 {
                                    1790
                                } else {
                                    1863
                                }
                            }
                        }
                    }
                } else {
                    if v <= 55 {
                        if v <= 51 {
                            if v <= 49 {
                                if v <= 48 {
                                    1937
                                } else {
                                    2013
                                }
                            } else {
                                if v <= 50 {
                                    2090
                                } else {
                                    2170
                                }
                            }
                        } else {
                            if v <= 53 {
                                if v <= 52 {
                                    2250
                                } else {
                                    2333
                                }
                            } else {
                                if v <= 54 {
                                    2418
                                } else {
                                    2504
                                }
                            }
                        }
                    } else {
                        if v <= 59 {
                            if v <= 57 {
                                if v <= 56 {
                                    2592
                                } else {
                                    2681
                                }
                            } else {
                                if v <= 58 {
                                    2773
                                } else {
                                    2866
                                }
                            }
                        } else {
                            if v <= 61 {
                                if v <= 60 {
                                    2961
                                } else {
                                    3058
                                }
                            } else {
                                if v <= 62 {
                                    3157
                                } else {
                                    3258
                                }
                            }
                        }
                    }
                }
            }
        } else {
            if v <= 95 {
                if v <= 79 {
                    if v <= 71 {
                        if v <= 67 {
                            if v <= 65 {
                                if v <= 64 {
                                    3360
                                } else {
                                    3464
                                }
                            } else {
                                if v <= 66 {
                                    3570
                                } else {
                                    3678
                                }
                            }
                        } else {
                            if v <= 69 {
                                if v <= 68 {
                                    3788
                                } else {
                                    3900
                                }
                            } else {
                                if v <= 70 {
                                    4014
                                } else {
                                    4129
                                }
                            }
                        }
                    } else {
                        if v <= 75 {
                            if v <= 73 {
                                if v <= 72 {
                                    4247
                                } else {
                                    4366
                                }
                            } else {
                                if v <= 74 {
                                    4488
                                } else {
                                    4611
                                }
                            }
                        } else {
                            if v <= 77 {
                                if v <= 76 {
                                    4736
                                } else {
                                    4864
                                }
                            } else {
                                if v <= 78 {
                                    4993
                                } else {
                                    5124
                                }
                            }
                        }
                    }
                } else {
                    if v <= 87 {
                        if v <= 83 {
                            if v <= 81 {
                                if v <= 80 {
                                    5257
                                } else {
                                    5392
                                }
                            } else {
                                if v <= 82 {
                                    5530
                                } else {
                                    5669
                                }
                            }
                        } else {
                            if v <= 85 {
                                if v <= 84 {
                                    5810
                                } else {
                                    5953
                                }
                            } else {
                                if v <= 86 {
                                    6099
                                } else {
                                    6246
                                }
                            }
                        }
                    } else {
                        if v <= 91 {
                            if v <= 89 {
                                if v <= 88 {
                                    6395
                                } else {
                                    6547
                                }
                            } else {
                                if v <= 90 {
                                    6700
                                } else {
                                    6856
                                }
                            }
                        } else {
                            if v <= 93 {
                                if v <= 92 {
                                    7014
                                } else {
                                    7174
                                }
                            } else {
                                if v <= 94 {
                                    7335
                                } else {
                                    7500
                                }
                            }
                        }
                    }
                }
            } else {
                if v <= 111 {
                    if v <= 103 {
                        if v <= 99 {
                            if v <= 97 {
                                if v <= 96 {
                                    7666
                                } else {
                                    7834
                                }
                            } else {
                                if v <= 98 {
                                    8004
                                } else {
                                    8177
                                }
                            }
                        } else {
                            if v <= 101 {
                                if v <= 100 {
                                    8352
                                } else {
                                    8528
                                }
                            } else {
                                if v <= 102 {
                                    8708
                                } else {
                                    8889
                                }
                            }
                        }
                    } else {
                        if v <= 107 {
                            if v <= 105 {
                                if v <= 104 {
                                    9072
                                } else {
                                    9258
                                }
                            } else {
                                if v <= 106 {
                                    9445
                                } else {
                                    9635
                                }
                            }
                        } else {
                            if v <= 109 {
                                if v <= 108 {
                                    9828
                                } else {
                                    10022
                                }
                            } else {
                                if v <= 110 {
                                    10219
                                } else {
                                    10417
                                }
                            }
                        }
                    }
                } else {
                    if v <= 119 {
                        if v <= 115 {
                            if v <= 113 {
                                if v <= 112 {
                                    10619
                                } else {
                                    10822
                                }
                            } else {
                                if v <= 114 {
                                    11028
                                } else {
                                    11235
                                }
                            }
                        } else {
                            if v <= 117 {
                                if v <= 116 {
                                    11446
                                } else {
                                    11658
                                }
                            } else {
                                if v <= 118 {
                                    11873
                                } else {
                                    12090
                                }
                            }
                        }
                    } else {
                        if v <= 123 {
                            if v <= 121 {
                                if v <= 120 {
                                    12309
                                } else {
                                    12530
                                }
                            } else {
                                if v <= 122 {
                                    12754
                                } else {
                                    12980
                                }
                            }
                        } else {
                            if v <= 125 {
                                if v <= 124 {
                                    13209
                                } else {
                                    13440
                                }
                            } else {
                                if v <= 126 {
                                    13673
                                } else {
                                    13909
                                }
                            }
                        }
                    }
                }
            }
        }
    } else {
        if v <= 191 {
            if v <= 159 {
                if v <= 143 {
                    if v <= 135 {
                        if v <= 131 {
                            if v <= 129 {
                                if v <= 128 {
                                    14146
                                } else {
                                    14387
                                }
                            } else {
                                if v <= 130 {
                                    14629
                                } else {
                                    14874
                                }
                            }
                        } else {
                            if v <= 133 {
                                if v <= 132 {
                                    15122
                                } else {
                                    15371
                                }
                            } else {
                                if v <= 134 {
                                    15623
                                } else {
                                    15878
                                }
                            }
                        }
                    } else {
                        if v <= 139 {
                            if v <= 137 {
                                if v <= 136 {
                                    16135
                                } else {
                                    16394
                                }
                            } else {
                                if v <= 138 {
                                    16656
                                } else {
                                    16920
                                }
                            }
                        } else {
                            if v <= 141 {
                                if v <= 140 {
                                    17187
                                } else {
                                    17456
                                }
                            } else {
                                if v <= 142 {
                                    17727
                                } else {
                                    18001
                                }
                            }
                        }
                    }
                } else {
                    if v <= 151 {
                        if v <= 147 {
                            if v <= 145 {
                                if v <= 144 {
                                    18277
                                } else {
                                    18556
                                }
                            } else {
                                if v <= 146 {
                                    18837
                                } else {
                                    19121
                                }
                            }
                        } else {
                            if v <= 149 {
                                if v <= 148 {
                                    19407
                                } else {
                                    19696
                                }
                            } else {
                                if v <= 150 {
                                    19987
                                } else {
                                    20281
                                }
                            }
                        }
                    } else {
                        if v <= 155 {
                            if v <= 153 {
                                if v <= 152 {
                                    20577
                                } else {
                                    20876
                                }
                            } else {
                                if v <= 154 {
                                    21177
                                } else {
                                    21481
                                }
                            }
                        } else {
                            if v <= 157 {
                                if v <= 156 {
                                    21787
                                } else {
                                    22096
                                }
                            } else {
                                if v <= 158 {
                                    22407
                                } else {
                                    22721
                                }
                            }
                        }
                    }
                }
            } else {
                if v <= 175 {
                    if v <= 167 {
                        if v <= 163 {
                            if v <= 161 {
                                if v <= 160 {
                                    23038
                                } else {
                                    23357
                                }
                            } else {
                                if v <= 162 {
                                    23678
                                } else {
                                    24002
                                }
                            }
                        } else {
                            if v <= 165 {
                                if v <= 164 {
                                    24329
                                } else {
                                    24658
                                }
                            } else {
                                if v <= 166 {
                                    24990
                                } else {
                                    25325
                                }
                            }
                        }
                    } else {
                        if v <= 171 {
                            if v <= 169 {
                                if v <= 168 {
                                    25662
                                } else {
                                    26001
                                }
                            } else {
                                if v <= 170 {
                                    26344
                                } else {
                                    26688
                                }
                            }
                        } else {
                            if v <= 173 {
                                if v <= 172 {
                                    27036
                                } else {
                                    27386
                                }
                            } else {
                                if v <= 174 {
                                    27739
                                } else {
                                    28094
                                }
                            }
                        }
                    }
                } else {
                    if v <= 183 {
                        if v <= 179 {
                            if v <= 177 {
                                if v <= 176 {
                                    28452
                                } else {
                                    28813
                                }
                            } else {
                                if v <= 178 {
                                    29176
                                } else {
                                    29542
                                }
                            }
                        } else {
                            if v <= 181 {
                                if v <= 180 {
                                    29911
                                } else {
                                    30282
                                }
                            } else {
                                if v <= 182 {
                                    30656
                                } else {
                                    31033
                                }
                            }
                        }
                    } else {
                        if v <= 187 {
                            if v <= 185 {
                                if v <= 184 {
                                    31412
                                } else {
                                    31794
                                }
                            } else {
                                if v <= 186 {
                                    32179
                                } else {
                                    32567
                                }
                            }
                        } else {
                            if v <= 189 {
                                if v <= 188 {
                                    32957
                                } else {
                                    33350
                                }
                            } else {
                                if v <= 190 {
                                    33745
                                } else {
                                    34143
                                }
                            }
                        }
                    }
                }
            }
        } else {
            if v <= 223 {
                if v <= 207 {
                    if v <= 199 {
                        if v <= 195 {
                            if v <= 193 {
                                if v <= 192 {
                                    34544
                                } else {
                                    34948
                                }
                            } else {
                                if v <= 194 {
                                    35355
                                } else {
                                    35764
                                }
                            }
                        } else {
                            if v <= 197 {
                                if v <= 196 {
                                    36176
                                } else {
                                    36591
                                }
                            } else {
                                if v <= 198 {
                                    37008
                                } else {
                                    37429
                                }
                            }
                        }
                    } else {
                        if v <= 203 {
                            if v <= 201 {
                                if v <= 200 {
                                    37852
                                } else {
                                    38278
                                }
                            } else {
                                if v <= 202 {
                                    38706
                                } else {
                                    39138
                                }
                            }
                        } else {
                            if v <= 205 {
                                if v <= 204 {
                                    39572
                                } else {
                                    40009
                                }
                            } else {
                                if v <= 206 {
                                    40449
                                } else {
                                    40891
                                }
                            }
                        }
                    }
                } else {
                    if v <= 215 {
                        if v <= 211 {
                            if v <= 209 {
                                if v <= 208 {
                                    41337
                                } else {
                                    41785
                                }
                            } else {
                                if v <= 210 {
                                    42236
                                } else {
                                    42690
                                }
                            }
                        } else {
                            if v <= 213 {
                                if v <= 212 {
                                    43147
                                } else {
                                    43606
                                }
                            } else {
                                if v <= 214 {
                                    44069
                                } else {
                                    44534
                                }
                            }
                        }
                    } else {
                        if v <= 219 {
                            if v <= 217 {
                                if v <= 216 {
                                    45002
                                } else {
                                    45473
                                }
                            } else {
                                if v <= 218 {
                                    45947
                                } else {
                                    46423
                                }
                            }
                        } else {
                            if v <= 221 {
                                if v <= 220 {
                                    46903
                                } else {
                                    47385
                                }
                            } else {
                                if v <= 222 {
                                    47871
                                } else {
                                    48359
                                }
                            }
                        }
                    }
                }
            } else {
                if v <= 239 {
                    if v <= 231 {
                        if v <= 227 {
                            if v <= 225 {
                                if v <= 224 {
                                    48850
                                } else {
                                    49344
                                }
                            } else {
                                if v <= 226 {
                                    49841
                                } else {
                                    50341
                                }
                            }
                        } else {
                            if v <= 229 {
                                if v <= 228 {
                                    50844
                                } else {
                                    51349
                                }
                            } else {
                                if v <= 230 {
                                    51858
                                } else {
                                    52369
                                }
                            }
                        }
                    } else {
                        if v <= 235 {
                            if v <= 233 {
                                if v <= 232 {
                                    52884
                                } else {
                                    53401
                                }
                            } else {
                                if v <= 234 {
                                    53921
                                } else {
                                    54445
                                }
                            }
                        } else {
                            if v <= 237 {
                                if v <= 236 {
                                    54971
                                } else {
                                    55500
                                }
                            } else {
                                if v <= 238 {
                                    56032
                                } else {
                                    56567
                                }
                            }
                        }
                    }
                } else {
                    if v <= 247 {
                        if v <= 243 {
                            if v <= 241 {
                                if v <= 240 {
                                    57105
                                } else {
                                    57646
                                }
                            } else {
                                if v <= 242 {
                                    58190
                                } else {
                                    58737
                                }
                            }
                        } else {
                            if v <= 245 {
                                if v <= 244 {
                                    59287
                                } else {
                                    59840
                                }
                            } else {
                                if v <= 246 {
                                    60396
                                } else {
                                    60955
                                }
                            }
                        }
                    } else {
                        if v <= 251 {
                            if v <= 249 {
                                if v <= 248 {
                                    61517
                                } else {
                                    62082
                                }
                            } else {
                                if v <= 250 {
                                    62650
                                } else {
                                    63221
                                }
                            }
                        } else {
                            if v <= 253 {
                                if v <= 252 {
                                    63795
                                } else {
                                    64372
                                }
                            } else {
                                if v <= 254 {
                                    64952
                                } else {
                                    65535
                                }
                            }
                        }
                    }
                }
            }
        }
    }
}

fn threshold_exec(v: u8) -> (r: u16)
    ensures
        r as int == threshold(v as int),
{
    if v <= 127 {
        if v <= 63 {
            if v <= 31 {
                if v <= 15 {
                    if v <= 7 {
                        if v <= 3 {
                            if v <= 1 {
                                if v <= 0 {
                                    0
                                } else {
                                    10
                                }
                            } else {
                                if v <= 2 {
                                    30
                                } else {
                                    50
                                }
                            }
                        } else {
                            if v <= 5 {
                                if v <= 4 {
                                    70
                                } else {
                                    90
                                }
                            } else {
                                if v <= 6 {
                                    110
                                } else {
                                    130
                                }
                            }
                        }
                    } else {
                        if v <= 11 {
                            if v <= 9 {
                                if v <= 8 {
                                    150
                                } else {
                                    170
                                }
                            } else {
                                if v <= 10 {
                                    189
                                } else {
                                    209
                                }
                            }
                        } else {
                            if v <= 13 {
                                if v <= 12 {
                                    230
                                } else {
                                    253
                                }
                            } else {
                                if v <= 14 {
                                    276
                                } else {
                                    301
                                }
                            }
                        }
                    }
                } else {
                    if v <= 23 {
                        if v <= 19 {
                            if v <= 17 {
                                if v <= 16 {
                                    327
                                } else {
                                    354
                                }
                            } else {
                                if v <= 18 {
                                    382
                                } else {
                                    412
                                }
                            }
                        } else {
                            if v <= 21 {
                                if v <= 20 {
                                    443
                                } else {
                                    475
                                }
                            } else {
                                if v <= 22 {
                                    509
                                } else {
                                    544
                                }
                            }
                        }
                    } else {
                        if v <= 27 {
                            if v <= 25 {
                                if v <= 24 {
                                    580
                                } else {
                                    618
                                }
                            } else {
                                if v <= 26 {
                                    657
                                } else {
                                    698
                                }
                            }
                        } else {
                            if v <= 29 {
                                if v <= 28 {
                                    740
                                } else {
                                    783
                                }
                            } else {
                                if v <= 30 {
                                    828
                                } else {
                                    875
                                }
                            }
                        }
                    }
                }
            } else {
                if v <= 47 {
                    if v <= 39 {
                        if v <= 35 {
                            if v <= 33 {
                                if v <= 32 {
                                    923
                                } else {
                                    972
                                }
                            } else {
                                if v <= 34 {
                                    1023
                                } else {
                                    1075
                                }
                            }
                        } else {
                            if v <= 37 {
                                if v <= 36 {
                                    1129
                                } else {
                                    1185
                                }
                            } else {
                                if v <= 38 {
                                    1242
                                } else {
                                    1300
                                }
                            }
                        }
                    } else {
                        if v <= 43 {
                            if v <= 41 {
                                if v <= 40 {
                                    1360
                                } else {
                                    1422
                                }
                            } else {
                                if v <= 42 {
                                    1486
                                } else {
                                    1551
                                }
                            }
                        } else {
                            if v <= 45 {
                                if v <= 44 {
                                    1617
                                } else {
                                    1685
                                }
                            } else {
                                if v <= 46 {
                                    1755
                                } else {
                                    1827
                                }
                            }
                        }
                    }
                } else {
                    if v <= 55 {
                        if v <= 51 {
                            if v <= 49 {
                                if v <= 48 {
                                    1900
                                } else {
                                    1975
                                }
                            } else {
                                if v <= 50 {
                                    2052
                                } else {
                                    2130
                                }
                            }
                        } else {
                            if v <= 53 {
                                if v <= 52 {
                                    2210
                                } else {
                                    2292
                                }
                            } else {
                                if v <= 54 {
                                    2376
                                } else {
                                    2461
                                }
                            }
                        }
                    } else {
                        if v <= 59 {
                            if v <= 57 {
                                if v <= 56 {
                                    2548
                                } else {
                                    2637
                                }
                            } else {
                                if v <= 58 {
                                    2727
                                } else {
                                    2820
                                }
                            }
                        } else {
                            if v <= 61 {
                                if v <= 60 {
                                    2914
                                } else {
                                    3010
                                }
                            } else {
                                if v <= 62 {
                                    3108
                                } else {
                                    3208
                                }
                            }
                        }
                    }
                }
            }
        } else {
            if v <= 95 {
                if v <= 79 {
                    if v <= 71 {
                        if v <= 67 {
                            if v <= 65 {
                                if v <= 64 {
                                    3309
                                } else {
                                    3412
                                }
                            } else {
                                if v <= 66 {
                                    3518
                                } else {
                                    3625
                                }
                            }
                        } else {
                            if v <= 69 {
                                if v <= 68 {
                                    3734
                                } else {
                                    3844
                                }
                            } else {
                                if v <= 70 {
                                    3957
                                } else {
                                    4072
                                }
                            }
                        }
                    } else {
                        if v <= 75 {
                            if v <= 73 {
                                if v <= 72 {
                                    4188
                                } else {
                                    4307
                                }
                            } else {
                                if v <= 74 {
                                    4427
                                } else {
                                    4550
                                }
                            }
                        } else {
                            if v <= 77 {
                                if v <= 76 {
                                    4674
                                } else {
                                    4800
                                }
                            } else {
                                if v <= 78 {
                                    4928
                                } else {
                                    5059
                                }
                            }
                        }
                    }
                } else {
                    if v <= 87 {
                        if v <= 83 {
                            if v <= 81 {
                                if v <= 80 {
                                    5191
                                } else {
                                    5325
                                }
                            } else {
                                if v <= 82 {
                                    5461
                                } else {
                                    5599
                                }
                            }
                        } else {
                            if v <= 85 {
                                if v <= 84 {
                                    5740
                                } else {
                                    5882
                                }
                            } else {
                                if v <= 86 {
                                    6026
                                } else {
                                    6173
                                }
                            }
                        }
                    } else {
                        if v <= 91 {
                            if v <= 89 {
                                if v <= 88 {
                                    6321
                                } else {
                                    6471
                                }
                            } else {
                                if v <= 90 {
                                    6624
                                } else {
                                    6778
                                }
                            }
                        } else {
                            if v <= 93 {
                                if v <= 92 {
                                    6935
                                } else {
                                    7094
                                }
                            } else {
                                if v <= 94 {
                                    7255
                                } else {
                                    7418
                                }
                            }
                        }
                    }
                }
            } else {
                if v <= 111 {
                    if v <= 103 {
                        if v <= 99 {
                            if v <= 97 {
                                if v <= 96 {
                                    7583
                                } else {
                                    7750
                                }
                            } else {
                                if v <= 98 {
                                    7919
                                } else {
                                    8091
                                }
                            }
                        } else {
                            if v <= 101 {
                                if v <= 100 {
                                    8265
                                } else {
                                    8440
                                }
                            } else {
                                if v <= 102 {
                                    8618
                                } else {
                                    8798
                                }
                            }
                        }
                    } else {
                        if v <= 107 {
                            if v <= 105 {
                                if v <= 104 {
                                    8981
                                } else {
                                    9165
                                }
                            } else {
                                if v <= 106 {
                                    9352
                                } else {
                                    9541
                                }
                            }
                        } else {
                            if v <= 109 {
                                if v <= 108 {
                                    9732
                                } else {
                                    9925
                                }
                            } else {
                                if v <= 110 {
                                    10121
                                } else {
                                    10318
                                }
                            }
                        }
                    }
                } else {
                    if v <= 119 {
                        if v <= 115 {
                            if v <= 113 {
                                if v <= 112 {
                                    10518
                                } else {
                                    10720
                                }
                            } else {
                                if v <= 114 {
                                    10925
                                } else {
                                    11132
                                }
                            }
                        } else {
                            if v <= 117 {
                                if v <= 116 {
                                    11341
                                } else {
                                    11552
                                }
                            } else {
                                if v <= 118 {
                                    11765
                                } else {
                                    11981
                                }
                            }
                        }
                    } else {
                        if v <= 123 {
                            if v <= 121 {
                                if v <= 120 {
                                    12199
                                } else {
                                    12420
                                }
                            } else {
                                if v <= 122 {
                                    12643
                                } else {
                                    12868
                                }
                            }
                        } else {
                            if v <= 125 {
                                if v <= 124 {
                                    13095
                                } else {
                                    13325
                                }
                            } else {
                                if v <= 126 {
                                    13557
                                } else {
                                    13791
                                }
                            }
                        }
                    }
                }
            }
        }
    } else {
        if v <= 191 {
            if v <= 159 {
                if v <= 143 {
                    if v <= 135 {
                        if v <= 131 {
                            if v <= 129 {
                                if v <= 128 {
                                    14028
                                } else {
                                    14267
                                }
                            } else {
                                if v <= 130 {
                                    14508
                                } else {
                                    14752
                                }
                            }
                        } else {
                            if v <= 133 {
                                if v <= 132 {
                                    14998
                                } else {
                                    15247
                                }
                            } else {
                                if v <= 134 {
                                    15498
                                } else {
                                    15751
                                }
                            }
                        }
                    } else {
                        if v <= 139 {
                            if v <= 137 {
                                if v <= 136 {
                                    16007
                                } else {
                                    16265
                                }
                            } else {
                                if v <= 138 {
                                    16525
                                } else {
                                    16788
                                }
                            }
                        } else {
                            if v <= 141 {
                                if v <= 140 {
                                    17054
                                } else {
                                    17321
                                }
                            } else {
                                if v <= 142 {
                                    17592
                                } else {
                                    17864
                                }
                            }
                        }
                    }
                } else {
                    if v <= 151 {
                        if v <= 147 {
                            if v <= 145 {
                                if v <= 144 {
                                    18139
                                } else {
                                    18417
                                }
                            } else {
                                if v <= 146 {
                                    18697
                                } else {
                                    18980
                                }
                            }
                        } else {
                            if v <= 149 {
                                if v <= 148 {
                                    19264
                                } else {
                                    19552
                                }
                            } else {
                                if v <= 150 {
                                    19842
                                } else {
                                    20134
                                }
                            }
                        }
                    } else {
                        if v <= 155 {
                            if v <= 153 {
                                if v <= 152 {
                                    20429
                                } else {
                                    20727
                                }
                            } else {
                                if v <= 154 {
                                    21027
                                } else {
                                    21329
                                }
                            }
                        } else {
                            if v <= 157 {
                                if v <= 156 {
                                    21634
                                } else {
                                    21942
                                }
                            } else {
                                if v <= 158 {
                                    22252
                                } else {
                                    22564
                                }
                            }
                        }
                    }
                }
            } else {
                if v <= 175 {
                    if v <= 167 {
                        if v <= 163 {
                            if v <= 161 {
                                if v <= 160 {
                                    22880
                                } else {
                                    23197
                                }
                            } else {
                                if v <= 162 {
                                    23518
                                } else {
                                    23840
                                }
                            }
                        } else {
                            if v <= 165 {
                                if v <= 164 {
                                    24166
                                } else {
                                    24494
                                }
                            } else {
                                if v <= 166 {
                                    24824
                                } else {
                                    25158
                                }
                            }
                        }
                    } else {
                        if v <= 171 {
                            if v <= 169 {
                                if v <= 168 {
                                    25493
                                } else {
                                    25832
                                }
                            } else {
                                if v <= 170 {
                                    26173
                                } else {
                                    26516
                                }
                            }
                        } else {
                            if v <= 173 {
                                if v <= 172 {
                                    26862
                                } else {
                                    27211
                                }
                            } else {
                                if v <= 174 {
                                    27563
                                } else {
                                    27917
                                }
                            }
                        }
                    }
                } else {
                    if v <= 183 {
                        if v <= 179 {
                            if v <= 177 {
                                if v <= 176 {
                                    28273
                                } else {
                                    28633
                                }
                            } else {
                                if v <= 178 {
                                    28995
                                } else {
                                    29359
                                }
                            }
                        } else {
                            if v <= 181 {
                                if v <= 180 {
                                    29727
                                } else {
                                    30097
                                }
                            } else {
                                if v <= 182 {
                                    30469
                                } else {
                                    30845
                                }
                            }
                        }
                    } else {
                        if v <= 187 {
                            if v <= 185 {
                                if v <= 184 {
                                    31223
                                } else {
                                    31603
                                }
                            } else {
                                if v <= 186 {
                                    31987
                                } else {
                                    32373
                                }
                            }
                        } else {
                            if v <= 189 {
                                if v <= 188 {
                                    32762
                                } else {
                                    33153
                                }
                            } else {
                                if v <= 190 {
                                    33547
                                } else {
                                    33944
                                }
                            }
                        }
                    }
                }
            }
        } else {
            if v <= 223 {
                if v <= 207 {
                    if v <= 199 {
                        if v <= 195 {
                            if v <= 193 {
                                if v <= 192 {
                                    34344
                                } else {
                                    34747
                                }
                            } else {
                                if v <= 194 {
                                    35152
                                } else {
                                    35560
                                }
                            }
                        } else {
                            if v <= 197 {
                                if v <= 196 {
                                    35970
                                } else {
                                    36384
                                }
                            } else {
                                if v <= 198 {
                                    36800
                                } else {
                                    37219
                                }
                            }
                        }
                    } else {
                        if v <= 203 {
                            if v <= 201 {
                                if v <= 200 {
                                    37640
                                } else {
                                    38065
                                }
                            } else {
                                if v <= 202 {
                                    38492
                                } else {
                                    38922
                                }
                            }
                        } else {
                            if v <= 205 {
                                if v <= 204 {
                                    39355
                                } else {
                                    39790
                                }
                            } else {
                                if v <= 206 {
                                    40229
                                } else {
                                    40670
                                }
                            }
                        }
                    }
                } else {
                    if v <= 215 {
                        if v <= 211 {
                            if v <= 209 {
                                if v <= 208 {
                                    41114
                                } else {
                                    41561
                                }
                            } else {
                                if v <= 210 {
                                    42011
                                } else {
                                    42463
                                }
                            }
                        } else {
                            if v <= 213 {
                                if v <= 212 {
                                    42918
                                } else {
                                    43377
                                }
                            } else {
                                if v <= 214 {
                                    43838
                                } else {
                                    44301
                                }
                            }
                        }
                    } else {
                        if v <= 219 {
                            if v <= 217 {
                                if v <= 216 {
                                    44768
                                } else {
                                    45238
                                }
                            } else {
                                if v <= 218 {
                                    45710
                                } else {
                                    46185
                                }
                            }
                        } else {
                            if v <= 221 {
                                if v <= 220 {
                                    46663
                                } else {
                                    47144
                                }
                            } else {
                                if v <= 222 {
                                    47628
                                } else {
                                    48115
                                }
                            }
                        }
                    }
                }
            } else {
                if v <= 239 {
                    if v <= 231 {
                        if v <= 227 {
                            if v <= 225 {
                                if v <= 224 {
                                    48605
                                } else {
                                    49097
                                }
                            } else {
                                if v <= 226 {
                                    49593
                                } else {
                                    50091
                                }
                            }
                        } else {
                            if v <= 229 {
                                if v <= 228 {
                                    50592
                                } else {
                                    51096
                                }
                            } else {
                                if v <= 230 {
                                    51604
                                } else {
                                    52114
                                }
                            }
                        }
                    } else {
                        if v <= 235 {
                            if v <= 233 {
                                if v <= 232 {
                                    52627
                                } else {
                                    53142
                                }
                            } else {
                                if v <= 234 {
                                    53661
                                } else {
                                    54183
                                }
                            }
                        } else {
                            if v <= 237 {
                                if v <= 236 {
                                    54708
                                } else {
                                    55235
                                }
                            } else {
                                if v <= 238 {
                                    55766
                                } else {
                                    56300
                                }
                            }
                        }
                    }
                } else {
                    if v <= 247 {
                        if v <= 243 {
                            if v <= 241 {
                                if v <= 240 {
                                    56836
                                } else {
                                    57376
                                }
                            } else {
                                if v <= 242 {
                                    57918
                                } else {
                                    58464
                                }
                            }
                        } else {
                            if v <= 245 {
                                if v <= 244 {
                                    59012
                                } else {
                                    59564
                                }
                            } else {
                                if v <= 246 {
                                    60118
                                } else {
                                    60675
                                }
                            }
                        }
                    } else {
                        if v <= 251 {
                            if v <= 249 {
                                if v <= 248 {
                                    61236
                                } else {
                                    61799
                                }
                            } else {
                                if v <= 250 {
                                    62366
                                } else {
                                    62935
                                }
                            }
                        } else {
                            if v <= 253 {
                                if v <= 252 {
                                    63508
                                } else {
                                    64083
                                }
                            } else {
                                if v <= 254 {
                                    64662
                                } else {
                                    65244
                                }
                            }
                        }
                    }
                }
            }
        }
    }
}

/// The linear value of each sRGB level, as a table.
pub fn srgb_to_linear_lut() -> (r: Vec<u16>)
    ensures
        r@.len() == 256,
        forall|i: int| 0 <= i < 256 ==> r@[i] == linear_of(i as u8),
{
    let mut r: Vec<u16> = Vec::new();
    let mut i: u32 = 0;
    while i < 256
        invariant
            i <= 256,
            r@.len() == i,
            forall|k: int| 0 <= k < i ==> r@[k] == linear_of(k as u8),
        decreases 256 - i,
    {
        r.push(linear_level_exec(i as u8));
        i = i + 1;
    }
    r
}

/// The sRGB level of each linear value, as a table.
pub fn linear_to_srgb_lut() -> (r: Vec<u8>)
    ensures
        r@.len() == 65536,
        forall|y: int| 0 <= y < 65536 ==> r@[y] == srgb_of(y as u16),
{
    let mut r: Vec<u8> = Vec::new();
    let mut v: u32 = 0;
    proof {
        lemma_thresholds_increase();
    }
    while v < 256
        invariant
            v <= 256,
            v < 256 ==> r@.len() == threshold(v as int),
            v == 256 ==> r@.len() == 65536,
            forall|y: int| 0 <= y < r@.len() ==> r@[y] == srgb_of(y as u16),
        decreases 256 - v,
    {
        let end: u32 = if v == 255 {
            65536
        } else {
            threshold_exec((v + 1) as u8) as u32
        };
        proof {
            if v < 255 {
                lemma_threshold_step(v as int);
            }
        }
        assert(end as int == threshold_after(v as int));
        let mut y: u32 = r.len() as u32;
        while y < end
            invariant
                v < 256,
                threshold(v as int) <= y <= end,
                end as int == threshold_after(v as int),
                r@.len() == y,
                forall|k: int| 0 <= k < r@.len() ==> r@[k] == srgb_of(k as u16),
            decreases end - y,
        {
            proof {
                lemma_level_in_run(y as int, v as int);
            }
            r.push(v as u8);
            y = y + 1;
        }
        v = v + 1;
    }
    r
}

/// Writes the linear value of each sRGB input byte.
pub fn srgb_to_linear(input: &[u8], output: &mut [u16])
    requires
        input@.len() == old(output)@.len(),
    ensures
        final(output)@.len() == input@.len(),
        forall|i: int| 0 <= i < input@.len() ==> final(output)@[i] == linear_of(input@[i]),
{
    let lut = srgb_to_linear_lut();
    let mut i: usize = 0;
    while i < input.len()
        invariant
            i <= input@.len(),
            output@.len() == input@.len(),
            lut@.len() == 256,
            forall|k: int| 0 <= k < 256 ==> lut@[k] == linear_of(k as u8),
            forall|k: int| 0 <= k < i ==> output@[k] == linear_of(input@[k]),
        decreases input.len() - i,
    {
        output.set(i, lut[input[i] as usize]);
        i = i + 1;
    }
}

/// Writes the sRGB level of each linear input value.
pub fn linear_to_srgb(input: &[u16], output: &mut [u8])
    requires
        input@.len() == old(output)@.len(),
    ensures
        final(output)@.len() == input@.len(),
        forall|i: int| 0 <= i < input@.len() ==> final(output)@[i] == srgb_of(input@[i]),
{
    let lut = linear_to_srgb_lut();
    let mut i: usize = 0;
    while i < input.len()
        invariant
            i <= input@.len(),
            output@.len() == input@.len(),
            lut@.len() == 65536,
            forall|k: int| 0 <= k < 65536 ==> lut@[k] == srgb_of(k as u16),
            forall|k: int| 0 <= k < i ==> output@[k] == srgb_of(input@[k]),
        decreases input.len() - i,
    {
        output.set(i, lut[input[i] as usize]);
        i = i + 1;
    }
}

} // verus!
